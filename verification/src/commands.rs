//! The command catalog: the fixed message registry and the commands a
//! host sends.
//!
//! Zero-payload commands are a bare four-byte header.  The
//! configuration commands wrap the payloads of the configuration
//! aggregate codec, one envelope per sub-structure, validating every
//! parameter before a single byte is written.

use vstd::prelude::*;

use crate::errors::ProtocolError;
use crate::envelope::{append_bytes, tlv_bytes};
use crate::config::{Codec, Preprocessing};
use crate::filters::{chain_payload, chain_wire_valid, Filters, Payload};
use crate::wire::push_u16_le;

verus! {

/// The protocol's stable tag registry.  Wire compatibility rests on
/// these numbers never moving.
#[derive(Clone, Copy, Debug, PartialEq, Eq, Structural)]
pub enum StructureTypes {
    /// Response when a command succeeded.  Tag 0.
    OkResponse,
    /// Response when a command failed.  Tag 1.
    Nok,
    /// Container for the configuration image kept in flash.  Tag 2.
    FlashHeader,
    /// Asks for the current and minimum supported config version.  Tag 3.
    GetVersion,
    /// Replaces the active configuration.  Tag 4.
    SetConfiguration,
    /// Asks for the active configuration held in RAM.  Tag 5.
    GetActiveConfiguration,
    /// Asks for the configuration stored in flash.  Tag 6.
    GetStoredConfiguration,
    /// Writes the active configuration to flash.  Tag 7.
    SaveConfiguration,
    /// Invalidates the flash contents.  Tag 8.
    FactoryReset,
    /// Preprocessing settings envelope.  Tag 0x200.
    PreProcessingConfiguration,
    /// Filter chain envelope.  Tag 0x201.
    FilterConfiguration,
    /// Codec flags envelope.  Tag 0x202.
    Pcm3060Configuration,
    /// Version report envelope.  Tag 0x400.
    VersionStatus,
}

impl StructureTypes {
    /// The fixed wire tag of this entry.
    pub open spec fn spec_tag(self) -> u16 {
        match self {
            StructureTypes::OkResponse => 0,
            StructureTypes::Nok => 1,
            StructureTypes::FlashHeader => 2,
            StructureTypes::GetVersion => 3,
            StructureTypes::SetConfiguration => 4,
            StructureTypes::GetActiveConfiguration => 5,
            StructureTypes::GetStoredConfiguration => 6,
            StructureTypes::SaveConfiguration => 7,
            StructureTypes::FactoryReset => 8,
            StructureTypes::PreProcessingConfiguration => 0x200,
            StructureTypes::FilterConfiguration => 0x201,
            StructureTypes::Pcm3060Configuration => 0x202,
            StructureTypes::VersionStatus => 0x400,
        }
    }

    /// Runtime form of [`Self::spec_tag`].
    pub fn tag(self) -> (r: u16)
        ensures
            r == self.spec_tag(),
    {
        match self {
            StructureTypes::OkResponse => 0,
            StructureTypes::Nok => 1,
            StructureTypes::FlashHeader => 2,
            StructureTypes::GetVersion => 3,
            StructureTypes::SetConfiguration => 4,
            StructureTypes::GetActiveConfiguration => 5,
            StructureTypes::GetStoredConfiguration => 6,
            StructureTypes::SaveConfiguration => 7,
            StructureTypes::FactoryReset => 8,
            StructureTypes::PreProcessingConfiguration => 0x200,
            StructureTypes::FilterConfiguration => 0x201,
            StructureTypes::Pcm3060Configuration => 0x202,
            StructureTypes::VersionStatus => 0x400,
        }
    }
}

/// A message the host can send.
///
/// All parameter checks run before anything is written: on rejection
/// the buffer is exactly as it was.
pub trait Command {
    /// Whether every parameter the command would encode is acceptable.
    spec fn valid(&self) -> bool;

    /// Whether the encoded message fits the wire's `u16` length fields.
    spec fn fits(&self) -> bool;

    /// The message's byte image.
    spec fn encoding(&self) -> Seq<u8>;

    /// Appends the encoded message to `buf`, or rejects it having
    /// written nothing.
    fn write_as_binary(&self, buf: &mut Vec<u8>) -> (r: Result<(), ProtocolError>)
        requires
            self.fits(),
        ensures
            match r {
                Ok(_) => self.valid() && final(buf)@ == old(buf)@ + self.encoding(),
                Err(e) => !self.valid() && e == ProtocolError::InvalidParameter && final(buf)@
                    == old(buf)@,
            },
    ;
}

/// Encodes a command into a fresh buffer.
pub fn encode_command<C: Command>(cmd: &C) -> (r: Result<Vec<u8>, ProtocolError>)
    requires
        cmd.fits(),
    ensures
        match r {
            Ok(v) => cmd.valid() && v@ == cmd.encoding(),
            Err(e) => !cmd.valid() && e == ProtocolError::InvalidParameter,
        },
{
    let mut buf: Vec<u8> = Vec::new();
    match cmd.write_as_binary(&mut buf) {
        Ok(_) => {
            assert(buf@ =~= cmd.encoding());
            Ok(buf)
        },
        Err(e) => Err(e),
    }
}

/// Law: the zero-payload commands are exactly their four header
/// bytes — nothing more ever follows the tag and the length word.
pub proof fn lemma_zero_payload_commands_are_four_bytes(
    g: GetVersion,
    f: FactoryReset,
    s: SaveConfiguration,
    q: GetStoredConfiguration,
)
    ensures
        g.encoding().len() == 4,
        f.encoding().len() == 4,
        s.encoding().len() == 4,
        q.encoding().len() == 4,
{
}

/// Asks the device for its version report.
pub struct GetVersion();

impl GetVersion {
    pub fn new() -> (r: Self) {
        Self()
    }
}

impl Command for GetVersion {
    open spec fn valid(&self) -> bool {
        true
    }

    open spec fn fits(&self) -> bool {
        true
    }

    open spec fn encoding(&self) -> Seq<u8> {
        tlv_bytes(StructureTypes::GetVersion.spec_tag(), Seq::empty())
    }

    fn write_as_binary(&self, buf: &mut Vec<u8>) -> (r: Result<(), ProtocolError>) {
        push_u16_le(buf, StructureTypes::GetVersion.tag());
        push_u16_le(buf, 4);
        assert(buf@ =~= old(buf)@ + self.encoding());
        Ok(())
    }
}

/// Invalidates the configuration stored in flash.
pub struct FactoryReset();

impl FactoryReset {
    pub fn new() -> (r: Self) {
        Self()
    }
}

impl Command for FactoryReset {
    open spec fn valid(&self) -> bool {
        true
    }

    open spec fn fits(&self) -> bool {
        true
    }

    open spec fn encoding(&self) -> Seq<u8> {
        tlv_bytes(StructureTypes::FactoryReset.spec_tag(), Seq::empty())
    }

    fn write_as_binary(&self, buf: &mut Vec<u8>) -> (r: Result<(), ProtocolError>) {
        push_u16_le(buf, StructureTypes::FactoryReset.tag());
        push_u16_le(buf, 4);
        assert(buf@ =~= old(buf)@ + self.encoding());
        Ok(())
    }
}

/// Writes the device's active configuration to flash.
pub struct SaveConfiguration();

impl SaveConfiguration {
    pub fn new() -> (r: Self) {
        Self()
    }
}

impl Command for SaveConfiguration {
    open spec fn valid(&self) -> bool {
        true
    }

    open spec fn fits(&self) -> bool {
        true
    }

    open spec fn encoding(&self) -> Seq<u8> {
        tlv_bytes(StructureTypes::SaveConfiguration.spec_tag(), Seq::empty())
    }

    fn write_as_binary(&self, buf: &mut Vec<u8>) -> (r: Result<(), ProtocolError>) {
        push_u16_le(buf, StructureTypes::SaveConfiguration.tag());
        push_u16_le(buf, 4);
        assert(buf@ =~= old(buf)@ + self.encoding());
        Ok(())
    }
}

/// Asks for the configuration stored in flash.
pub struct GetStoredConfiguration();

impl GetStoredConfiguration {
    pub fn new() -> (r: Self) {
        Self()
    }
}

impl Command for GetStoredConfiguration {
    open spec fn valid(&self) -> bool {
        true
    }

    open spec fn fits(&self) -> bool {
        true
    }

    open spec fn encoding(&self) -> Seq<u8> {
        tlv_bytes(StructureTypes::GetStoredConfiguration.spec_tag(), Seq::empty())
    }

    fn write_as_binary(&self, buf: &mut Vec<u8>) -> (r: Result<(), ProtocolError>) {
        push_u16_le(buf, StructureTypes::GetStoredConfiguration.tag());
        push_u16_le(buf, 4);
        assert(buf@ =~= old(buf)@ + self.encoding());
        Ok(())
    }
}

/// Sends the preprocessing settings alone.
pub struct SetPreprocessingConfiguration<'a>(pub &'a Preprocessing);

impl<'a> SetPreprocessingConfiguration<'a> {
    pub fn new(preprocessing: &'a Preprocessing) -> (r: Self)
        ensures
            r.0 == preprocessing,
    {
        Self(preprocessing)
    }
}

impl Command for SetPreprocessingConfiguration<'_> {
    open spec fn valid(&self) -> bool {
        true
    }

    open spec fn fits(&self) -> bool {
        true
    }

    open spec fn encoding(&self) -> Seq<u8> {
        tlv_bytes(
            StructureTypes::PreProcessingConfiguration.spec_tag(),
            self.0.payload_spec(),
        )
    }

    fn write_as_binary(&self, buf: &mut Vec<u8>) -> (r: Result<(), ProtocolError>) {
        let payload = self.0.to_payload();
        push_u16_le(buf, StructureTypes::PreProcessingConfiguration.tag());
        push_u16_le(buf, 16);
        append_bytes(buf, &payload);
        assert(buf@ =~= old(buf)@ + self.encoding());
        Ok(())
    }
}

/// Sends the filter chain alone.  Every enabled filter is validated
/// before anything is written.
pub struct SetFilterConfiguration<'a>(pub &'a Filters);

impl<'a> SetFilterConfiguration<'a> {
    pub fn new(filters: &'a Filters) -> (r: Self)
        ensures
            r.0 == filters,
    {
        Self(filters)
    }
}

impl Command for SetFilterConfiguration<'_> {
    open spec fn valid(&self) -> bool {
        chain_wire_valid(self.0@)
    }

    open spec fn fits(&self) -> bool {
        chain_payload(self.0@).len() + 8 <= 65535
    }

    open spec fn encoding(&self) -> Seq<u8> {
        tlv_bytes(StructureTypes::FilterConfiguration.spec_tag(), chain_payload(self.0@))
    }

    fn write_as_binary(&self, buf: &mut Vec<u8>) -> (r: Result<(), ProtocolError>) {
        let payload = match self.0.to_payload() {
            Ok(p) => p,
            Err(e) => {
                return Err(e);
            },
        };
        push_u16_le(buf, StructureTypes::FilterConfiguration.tag());
        push_u16_le(buf, (payload.len() + 4) as u16);
        append_bytes(buf, &payload);
        assert(buf@ =~= old(buf)@ + self.encoding());
        Ok(())
    }
}

/// Sends the codec flags alone.
pub struct SetPcm3060Configuration<'a>(pub &'a Codec);

impl<'a> SetPcm3060Configuration<'a> {
    pub fn new(codec: &'a Codec) -> (r: Self)
        ensures
            r.0 == codec,
    {
        Self(codec)
    }
}

impl Command for SetPcm3060Configuration<'_> {
    open spec fn valid(&self) -> bool {
        true
    }

    open spec fn fits(&self) -> bool {
        true
    }

    open spec fn encoding(&self) -> Seq<u8> {
        tlv_bytes(StructureTypes::Pcm3060Configuration.spec_tag(), self.0.payload_spec())
    }

    fn write_as_binary(&self, buf: &mut Vec<u8>) -> (r: Result<(), ProtocolError>) {
        let payload = self.0.to_payload();
        push_u16_le(buf, StructureTypes::Pcm3060Configuration.tag());
        push_u16_le(buf, 8);
        append_bytes(buf, &payload);
        assert(buf@ =~= old(buf)@ + self.encoding());
        Ok(())
    }
}

/// Replaces the device's active configuration: the three configuration
/// envelopes in their fixed order under one outer envelope.
pub struct SetConfiguration<'a, 'b, 'c> {
    pub preprocessing: SetPreprocessingConfiguration<'a>,
    pub filter: SetFilterConfiguration<'b>,
    pub codec: SetPcm3060Configuration<'c>,
}

impl<'a, 'b, 'c> SetConfiguration<'a, 'b, 'c> {
    pub fn new(
        preprocessing: SetPreprocessingConfiguration<'a>,
        filter: SetFilterConfiguration<'b>,
        codec: SetPcm3060Configuration<'c>,
    ) -> (r: Self)
        ensures
            r.preprocessing == preprocessing,
            r.filter == filter,
            r.codec == codec,
    {
        Self { preprocessing, filter, codec }
    }
}

impl Command for SetConfiguration<'_, '_, '_> {
    open spec fn valid(&self) -> bool {
        chain_wire_valid(self.filter.0@)
    }

    open spec fn fits(&self) -> bool {
        chain_payload(self.filter.0@).len() + 32 <= 65535
    }

    open spec fn encoding(&self) -> Seq<u8> {
        tlv_bytes(
            StructureTypes::SetConfiguration.spec_tag(),
            crate::config::preprocessing_tlv(*self.preprocessing.0)
                + crate::config::filters_tlv(self.filter.0@)
                + crate::config::codec_tlv(*self.codec.0),
        )
    }

    fn write_as_binary(&self, buf: &mut Vec<u8>) -> (r: Result<(), ProtocolError>) {
        let ghost buf0 = buf@;
        let mut inner: Vec<u8> = Vec::new();
        if let Err(e) = self.preprocessing.write_as_binary(&mut inner) {
            return Err(e);
        }
        if let Err(e) = self.filter.write_as_binary(&mut inner) {
            return Err(e);
        }
        if let Err(e) = self.codec.write_as_binary(&mut inner) {
            return Err(e);
        }
        assert(inner@ == crate::config::preprocessing_tlv(*self.preprocessing.0)
            + crate::config::filters_tlv(self.filter.0@)
            + crate::config::codec_tlv(*self.codec.0));
        push_u16_le(buf, StructureTypes::SetConfiguration.tag());
        push_u16_le(buf, (inner.len() + 4) as u16);
        append_bytes(buf, &inner);
        assert(buf@ =~= buf0 + self.encoding());
        Ok(())
    }
}

} // verus!
