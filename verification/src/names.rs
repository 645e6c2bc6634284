//! Function names from the module's name section.

use crate::wasm::{
    PayloadStep, name_section_reader, new_parser, next_name_subsection, next_naming, parse_chunk,
    payload_step, custom_section_data, custom_section_data_offset, custom_section_name,
};
use vstd::prelude::*;

verus! {

/// The name that an association list gives a function index: the value of
/// its last entry for the index, or none where no entry exists.
pub open spec fn seq_name_lookup(s: Seq<(u32, String)>, idx: u32) -> Option<Seq<char>>
    decreases s.len(),
{
    if s.len() == 0 {
        None
    } else if s.last().0 == idx {
        Some(s.last().1@)
    } else {
        seq_name_lookup(s.drop_last(), idx)
    }
}

/// Each function index occurs in at most one entry.
pub open spec fn indices_unique(s: Seq<(u32, String)>) -> bool {
    forall|i: int, j: int|
        0 <= i < j < s.len() ==> (#[trigger] s[i]).0 != (#[trigger] s[j]).0
}

proof fn lemma_name_absent(s: Seq<(u32, String)>, idx: u32)
    requires
        forall|i: int| 0 <= i < s.len() ==> (#[trigger] s[i]).0 != idx,
    ensures
        seq_name_lookup(s, idx) is None,
    decreases s.len(),
{
    if s.len() > 0 {
        lemma_name_absent(s.drop_last(), idx);
    }
}

proof fn lemma_name_found(s: Seq<(u32, String)>, i: int, idx: u32)
    requires
        indices_unique(s),
        0 <= i < s.len(),
        s[i].0 == idx,
    ensures
        seq_name_lookup(s, idx) == Some(s[i].1@),
    decreases s.len(),
{
    if i < s.len() - 1 {
        assert(s.last().0 != idx);
        assert(indices_unique(s.drop_last()));
        lemma_name_found(s.drop_last(), i, idx);
    }
}

proof fn lemma_name_update(s: Seq<(u32, String)>, i: int, e: (u32, String), idx: u32)
    requires
        0 <= i < s.len(),
        s[i].0 == e.0,
        indices_unique(s),
    ensures
        seq_name_lookup(s.update(i, e), e.0) == Some(e.1@),
        idx != e.0 ==> seq_name_lookup(s.update(i, e), idx) == seq_name_lookup(s, idx),
    decreases s.len(),
{
    let t = s.update(i, e);
    if i == s.len() - 1 {
        assert(t.last() == e);
        assert(t.drop_last() =~= s.drop_last());
    } else {
        assert(t.last() == s.last());
        assert(s.last().0 != e.0);
        assert(t.drop_last() =~= s.drop_last().update(i, e));
        assert(indices_unique(s.drop_last()));
        lemma_name_update(s.drop_last(), i, e, idx);
    }
}

proof fn lemma_name_push(s: Seq<(u32, String)>, e: (u32, String), idx: u32)
    ensures
        seq_name_lookup(s.push(e), e.0) == Some(e.1@),
        idx != e.0 ==> seq_name_lookup(s.push(e), idx) == seq_name_lookup(s, idx),
{
    assert(s.push(e).last() == e);
    assert(s.push(e).drop_last() =~= s);
}

/// The names the module gives its function indices, one entry per index.
pub struct FuncNames {
    pub entries: Vec<(u32, String)>,
}

impl FuncNames {
    /// Well-formed: one entry per function index.
    pub open spec fn wf(self) -> bool {
        indices_unique(self.entries@)
    }

    /// The name held for a function index, if any.
    pub open spec fn spec_name(self, idx: u32) -> Option<Seq<char>> {
        seq_name_lookup(self.entries@, idx)
    }

    pub fn new() -> (r: FuncNames)
        ensures
            r.wf(),
            forall|i: u32| r.spec_name(i) is None,
    {
        FuncNames { entries: Vec::new() }
    }

    /// The position of the entry for `idx`, where one exists.
    fn find_index(&self, idx: u32) -> (r: Option<usize>)
        ensures
            match r {
                Some(i) => i < self.entries@.len() && self.entries@[i as int].0 == idx,
                None => forall|j: int|
                    0 <= j < self.entries@.len() ==> (#[trigger] self.entries@[j]).0 != idx,
            },
    {
        let n = self.entries.len();
        let mut i: usize = 0;
        while i < n
            invariant
                i <= n,
                n == self.entries@.len(),
                forall|j: int| 0 <= j < i ==> (#[trigger] self.entries@[j]).0 != idx,
            decreases n - i,
        {
            if self.entries[i].0 == idx {
                return Some(i);
            }
            i = i + 1;
        }
        None
    }

    /// Record a name for a function index, replacing any earlier one.
    pub fn insert(&mut self, idx: u32, name: String)
        requires
            old(self).wf(),
        ensures
            final(self).wf(),
            final(self).spec_name(idx) == Some(name@),
            forall|i: u32| i != idx ==> final(self).spec_name(i) == old(self).spec_name(i),
    {
        match self.find_index(idx) {
            Some(i) => {
                proof {
                    assert forall|q: u32| #![auto] true implies seq_name_lookup(
                        self.entries@.update(i as int, (idx, name)),
                        q,
                    ) == if q == idx {
                        Some(name@)
                    } else {
                        seq_name_lookup(self.entries@, q)
                    } by {
                        lemma_name_update(self.entries@, i as int, (idx, name), q);
                    }
                    assert(forall|p: int, q: int|
                        0 <= p < q < self.entries@.len() ==> (
                        #[trigger] self.entries@.update(i as int, (idx, name))[p]).0 != (
                        #[trigger] self.entries@.update(i as int, (idx, name))[q]).0);
                }
                self.entries[i] = (idx, name);
            },
            None => {
                proof {
                    assert forall|q: u32| #![auto] true implies seq_name_lookup(
                        self.entries@.push((idx, name)),
                        q,
                    ) == if q == idx {
                        Some(name@)
                    } else {
                        seq_name_lookup(self.entries@, q)
                    } by {
                        lemma_name_push(self.entries@, (idx, name), q);
                    }
                    assert(forall|p: int, q: int|
                        0 <= p < q < self.entries@.len() + 1 ==> (
                        #[trigger] self.entries@.push((idx, name))[p]).0 != (
                        #[trigger] self.entries@.push((idx, name))[q]).0);
                }
                self.entries.push((idx, name));
            },
        }
    }

    /// The name recorded for a function index, if any.
    pub fn get(&self, idx: u32) -> (r: Option<String>)
        requires
            self.wf(),
        ensures
            match r {
                Some(name) => self.spec_name(idx) == Some(name@),
                None => self.spec_name(idx) is None,
            },
    {
        match self.find_index(idx) {
            Some(i) => {
                proof {
                    lemma_name_found(self.entries@, i as int, idx);
                }
                Some(self.entries[i].1.clone())
            },
            None => {
                proof {
                    lemma_name_absent(self.entries@, idx);
                }
                None
            },
        }
    }
}

/// Collect the function names of the module's name section: every
/// well-formed function-name entry of a custom section called "name",
/// later entries replacing earlier ones as the decoder hands them out.
/// Malformed parts of the section are passed over, as the name section is
/// advisory; the map holds one entry per function index.
pub fn parse_name_section(bytes: &[u8]) -> (r: FuncNames)
    ensures
        r.wf(),
{
    let mut names = FuncNames::new();
    let mut parser = new_parser();
    let mut offset: usize = 0;
    // Every payload but the last consumes at least one byte, so this many
    // rounds always reach the end of the module.
    let mut rounds = bytes.len();
    loop
        invariant
            names.wf(),
            offset <= bytes@.len(),
        decreases rounds,
    {
        let rest = &bytes[offset..bytes.len()];
        match parse_chunk(&mut parser, rest) {
            Err(_) => {
                return names;
            },
            Ok(None) => {
                return names;
            },
            Ok(Some((consumed, payload))) => {
                offset = offset + consumed;
                match payload_step(payload) {
                    PayloadStep::Custom(section) => {
                        let section_name = custom_section_name(&section);
                        let wanted = "name".to_owned();
                        if section_name == wanted {
                            let data = custom_section_data(&section);
                            let data_offset = custom_section_data_offset(&section);
                            let mut reader = name_section_reader(data, data_offset);
                            collect_function_names(&mut names, &mut reader, data.len());
                        }
                    },
                    PayloadStep::ModuleEnd => {
                        return names;
                    },
                    _ => {},
                }
            },
        }
        if rounds == 0 {
            return names;
        }
        rounds = rounds - 1;
    }
}

/// Read every function-name entry out of one name section, later entries
/// for an index replacing earlier ones; malformed subsections and entries
/// are passed over. `size` bounds the section's bytes, and with it the
/// number of entries the decoder can hand out.
fn collect_function_names(
    names: &mut FuncNames,
    reader: &mut wasmparser::NameSectionReader<'_>,
    size: usize,
)
    requires
        old(names).wf(),
    ensures
        final(names).wf(),
{
    let mut rounds = size;
    loop
        invariant
            names.wf(),
        decreases rounds,
    {
        match next_name_subsection(reader) {
            None => {
                return ;
            },
            Some(Err(_)) => {},
            Some(Ok(None)) => {},
            Some(Ok(Some(mut fnames))) => {
                let mut inner_rounds = size;
                loop
                    invariant
                        names.wf(),
                    decreases inner_rounds,
                {
                    match next_naming(&mut fnames) {
                        None => {
                            break ;
                        },
                        Some(Err(_)) => {},
                        Some(Ok((idx, name))) => {
                            names.insert(idx, name);
                        },
                    }
                    if inner_rounds == 0 {
                        break ;
                    }
                    inner_rounds = inner_rounds - 1;
                }
            },
        }
        if rounds == 0 {
            return ;
        }
        rounds = rounds - 1;
    }
}

} // verus!
