//! The trusted boundary around the binary-format decoder. The decoder —
//! wasmparser — is a black box that walks the module's sections and
//! outlines instructions; everything the analysis concludes from what it
//! hands back is computed and proved on this side of the boundary.

use vstd::prelude::*;

verus! {

#[verifier::external_type_specification]
#[verifier::external_body]
pub struct ExParser(wasmparser::Parser);

#[verifier::external_type_specification]
#[verifier::external_body]
pub struct ExPayload<'a>(wasmparser::Payload<'a>);

#[verifier::external_type_specification]
#[verifier::external_body]
pub struct ExBinaryReaderError(wasmparser::BinaryReaderError);

#[verifier::external_type_specification]
#[verifier::external_body]
pub struct ExFunctionBody<'a>(wasmparser::FunctionBody<'a>);

#[verifier::external_type_specification]
#[verifier::external_body]
pub struct ExOperatorsReader<'a>(wasmparser::OperatorsReader<'a>);

#[verifier::external_type_specification]
#[verifier::external_body]
pub struct ExCustomSectionReader<'a>(wasmparser::CustomSectionReader<'a>);

#[verifier::external_type_specification]
#[verifier::external_body]
pub struct ExNameSectionReader<'a>(wasmparser::NameSectionReader<'a>);

#[verifier::external_type_specification]
#[verifier::external_body]
pub struct ExNameMap<'a>(wasmparser::NameMap<'a>);

#[verifier::external_type_specification]
#[verifier::external_body]
pub struct ExName<'a>(wasmparser::Name<'a>);

#[verifier::external_type_specification]
#[verifier::external_body]
pub struct ExNaming<'a>(wasmparser::Naming<'a>);

/// A decoding failure, with the decoder's message.
#[derive(Debug)]
pub struct WasmError {
    pub message: String,
}

/// What a parsed chunk of the module stream means to the analysis.
pub enum PayloadStep<'a> {
    /// The code section starts at this offset of the byte stream.
    CodeStart(u64),
    /// One function body of the code section.
    CodeEntry(wasmparser::FunctionBody<'a>),
    /// A custom section.
    Custom(wasmparser::CustomSectionReader<'a>),
    /// The module ends.
    ModuleEnd,
    /// A section the analysis does not read.
    Other,
}

/// Relies on wasmparser::Parser::new: a parser for a module stream that
/// begins at offset zero.
#[verifier::external_body]
pub fn new_parser() -> wasmparser::Parser {
    wasmparser::Parser::new(0)
}

/// Relies on wasmparser::Parser::parse with `eof` set: it consumes at
/// most the bytes it is handed and yields the next payload, an error, or
/// a request for more data (`None` here) that with `eof` set means the
/// stream is truncated.
#[verifier::external_body]
pub fn parse_chunk<'a>(p: &mut wasmparser::Parser, data: &'a [u8]) -> (r: Result<
    Option<(usize, wasmparser::Payload<'a>)>,
    WasmError,
>)
    ensures
        r matches Ok(Some((consumed, _))) ==> consumed <= data@.len(),
{
    match p.parse(data, true) {
        Ok(wasmparser::Chunk::Parsed { consumed, payload }) => Ok(Some((consumed, payload))),
        Ok(wasmparser::Chunk::NeedMoreData(_)) => Ok(None),
        Err(e) => Err(WasmError { message: e.message().to_owned() }),
    }
}

/// Relies on the wasmparser::Payload variants: each arm only tells the
/// variants apart and moves their fields.
#[verifier::external_body]
pub fn payload_step<'a>(p: wasmparser::Payload<'a>) -> PayloadStep<'a> {
    match p {
        wasmparser::Payload::CodeSectionStart { range, .. } => PayloadStep::CodeStart(range.start),
        wasmparser::Payload::CodeSectionEntry(body) => PayloadStep::CodeEntry(body),
        wasmparser::Payload::CustomSection(section) => PayloadStep::Custom(section),
        wasmparser::Payload::End(_) => PayloadStep::ModuleEnd,
        _ => PayloadStep::Other,
    }
}

/// Relies on wasmparser::FunctionBody::range: where the body lies in the
/// byte stream.
#[verifier::external_body]
pub fn body_range_start(body: &wasmparser::FunctionBody<'_>) -> u64 {
    body.range().start
}

/// Relies on wasmparser::FunctionBody::get_operators_reader.
#[verifier::external_body]
pub fn ops_reader<'a>(body: &wasmparser::FunctionBody<'a>) -> Result<
    wasmparser::OperatorsReader<'a>,
    WasmError,
> {
    body.get_operators_reader().map_err(|e| WasmError { message: e.message().to_owned() })
}

/// Relies on wasmparser::OperatorsReader::eof.
#[verifier::external_body]
pub fn ops_eof(r: &wasmparser::OperatorsReader<'_>) -> bool {
    r.eof()
}

/// Relies on wasmparser::OperatorsReader::original_position: the offset,
/// in the byte stream the parser was started on, where the next
/// instruction begins.
#[verifier::external_body]
pub fn ops_position(r: &wasmparser::OperatorsReader<'_>) -> u64 {
    r.original_position()
}

/// Relies on wasmparser::OperatorsReader::read: it decodes one
/// instruction and moves past it; the decoded record itself is dropped,
/// the instruction is re-read from the raw bytes on the verified side.
#[verifier::external_body]
pub fn ops_advance(r: &mut wasmparser::OperatorsReader<'_>) -> Result<(), WasmError> {
    match r.read() {
        Ok(_) => Ok(()),
        Err(e) => Err(WasmError { message: e.message().to_owned() }),
    }
}

/// Relies on wasmparser::CustomSectionReader::name.
#[verifier::external_body]
pub fn custom_section_name(section: &wasmparser::CustomSectionReader<'_>) -> String {
    section.name().to_owned()
}

/// Relies on wasmparser::CustomSectionReader::data.
#[verifier::external_body]
pub fn custom_section_data<'a>(section: &wasmparser::CustomSectionReader<'a>) -> &'a [u8] {
    section.data()
}

/// Relies on wasmparser::CustomSectionReader::data_offset.
#[verifier::external_body]
pub fn custom_section_data_offset(section: &wasmparser::CustomSectionReader<'_>) -> u64 {
    section.data_offset()
}

/// Relies on wasmparser::NameSectionReader::new over a
/// wasmparser::BinaryReader of the custom section's bytes.
#[verifier::external_body]
pub fn name_section_reader<'a>(data: &'a [u8], offset: u64) -> wasmparser::NameSectionReader<'a> {
    wasmparser::NameSectionReader::new(wasmparser::BinaryReader::new(data, offset))
}

/// Relies on the wasmparser::NameSectionReader iterator and the
/// wasmparser::Name variants: the next subsection, with its function-name
/// map where it is one (`Name::Function`), `None` inside where it is some
/// other kind of name.
#[verifier::external_body]
pub fn next_name_subsection<'a>(r: &mut wasmparser::NameSectionReader<'a>) -> Option<
    Result<Option<wasmparser::NameMap<'a>>, WasmError>,
> {
    r.next().map(|res|
        match res {
            Ok(wasmparser::Name::Function(map)) => Ok(Some(map)),
            Ok(_) => Ok(None),
            Err(e) => Err(WasmError { message: e.message().to_owned() }),
        }
    )
}

/// Relies on the wasmparser::NameMap iterator and the fields of
/// wasmparser::Naming: the next named function index with its name.
#[verifier::external_body]
pub fn next_naming(m: &mut wasmparser::NameMap<'_>) -> Option<Result<(u32, String), WasmError>> {
    m.next().map(|res|
        match res {
            Ok(naming) => Ok((naming.index, naming.name.to_owned())),
            Err(e) => Err(WasmError { message: e.message().to_owned() }),
        }
    )
}

} // verus!
