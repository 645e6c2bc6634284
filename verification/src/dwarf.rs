//! The debug-information resolver adapter: a black box that maps a binary
//! offset to an optional source file and line.

use vstd::prelude::*;

verus! {

/// The debug-information resolver: an addr2line context over the DWARF
/// sections read in place from the module's bytes, little-endian as the
/// format prescribes. The context is opaque here; it is only built and
/// probed through the trusted items below.
#[verifier::external_body]
pub struct DebugContext<'a> {
    ctx: addr2line::Context<gimli::EndianSlice<'a, gimli::LittleEndian>>,
}

impl<'a> DebugContext<'a> {
    /// Relies on object::File::parse, gimli::Dwarf::load and
    /// addr2line::Context::from_dwarf: the DWARF sections are looked up by
    /// name in the object file and handed to the resolver; a module
    /// without readable debug information yields no context.
    #[verifier::external_body]
    pub fn from_wasm_bytes(bytes: &'a [u8]) -> Option<DebugContext<'a>> {
        let obj = object::File::parse(bytes).ok()?;
        let loader = |section: gimli::SectionId| -> Result<_, gimli::Error> {
            let data = object::Object::section_by_name(&obj, section.name())
                .and_then(|s| object::ObjectSection::data(&s).ok())
                .unwrap_or(&[]);
            Ok(gimli::EndianSlice::new(data, gimli::LittleEndian))
        };
        let dwarf = gimli::Dwarf::load(loader).ok()?;
        let ctx = addr2line::Context::from_dwarf(dwarf).ok()?;
        Some(DebugContext { ctx })
    }

    /// Relies on addr2line::Context::find_location: the source file and
    /// line, if any, that the debug information gives a binary offset. A
    /// lookup error counts as no location; the file and the line are
    /// handed on separately, either of which the debug information may
    /// omit.
    #[verifier::external_body]
    fn find_location(&self, probe: u64) -> (Option<String>, Option<u32>) {
        match self.ctx.find_location(probe) {
            Ok(Some(loc)) => (loc.file.map(|f| f.to_owned()), loc.line),
            Ok(None) => (None, None),
            Err(_) => (None, None),
        }
    }
}

/// The source location, if any, behind a code offset: what the debug
/// information answers where there is any, and no location at all where
/// the module carried none.
pub fn get_source_location(ctx: Option<&DebugContext<'_>>, code_offset: u64) -> (r: (
    Option<String>,
    Option<u32>,
))
    ensures
        ctx is None ==> r == (None::<String>, None::<u32>),
{
    match ctx {
        Some(c) => c.find_location(code_offset),
        None => (None, None),
    }
}

} // verus!
