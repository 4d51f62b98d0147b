//! The per-source diagnostic sets and their merged, deduplicated view.

use vstd::prelude::*;

use crate::chars::{chars_to_string, is_whitespace, str_to_chars, to_lowercase};
use crate::diagnostics::model::{
    source_of_priority, Diagnostic, DiagnosticModel, DiagnosticSeverity, DiagnosticSource,
    TextPosition,
};
use crate::paths::{compare_paths, normalize_lexically};

verus! {

/// `split_whitespace` joined by single spaces, as a scan: `gap` says
/// whether whitespace came since the last word.
pub open spec fn collapse_ws(s: Seq<char>, out: Seq<char>, gap: bool) -> Seq<char>
    decreases s.len(),
{
    if s.len() == 0 {
        out
    } else if crate::chars::is_ws(s[0]) {
        collapse_ws(s.drop_first(), out, out.len() > 0)
    } else {
        collapse_ws(s.drop_first(), (if gap { out.push(' ') } else { out }).push(s[0]), false)
    }
}

/// A message as it is shown: its words separated by single spaces.
pub open spec fn display_message(s: Seq<char>) -> Seq<char> {
    collapse_ws(s, Seq::empty(), false)
}

/// The message as it counts for coincidence: shown form, lower-cased.
pub open spec fn key_message(s: Seq<char>) -> Seq<char> {
    crate::chars::lowercase(display_message(s))
}

/// Two diagnostics coincide: same file (component-wise), range, severity
/// and key message.
pub open spec fn same_key(a: DiagnosticModel, b: DiagnosticModel) -> bool {
    &&& crate::paths::path_order(a.file, b.file) == 0
    &&& a.range == b.range
    &&& a.severity == b.severity
    &&& key_message(a.message) == key_message(b.message)
}

pub open spec fn has_key(kept: Seq<DiagnosticModel>, x: DiagnosticModel) -> bool {
    exists|j: int| 0 <= j < kept.len() && same_key(#[trigger] kept[j], x)
}

/// The first diagnostic of each key, in order.
pub open spec fn dedupe(s: Seq<DiagnosticModel>) -> Seq<DiagnosticModel>
    decreases s.len(),
{
    if s.len() == 0 {
        s
    } else {
        let d = dedupe(s.drop_last());
        if has_key(d, s.last()) {
            d
        } else {
            d.push(s.last())
        }
    }
}

pub open spec fn severity_rank(s: DiagnosticSeverity) -> int {
    match s {
        DiagnosticSeverity::Error => 0,
        DiagnosticSeverity::Warning => 1,
        DiagnosticSeverity::Information => 2,
        DiagnosticSeverity::Hint => 3,
    }
}

/// `a < b` for an optional offset: `None` first.
pub open spec fn offset_lt(a: Option<usize>, b: Option<usize>) -> bool {
    match (a, b) {
        (None, Some(_)) => true,
        (Some(x), Some(y)) => x < y,
        _ => false,
    }
}

/// Positions in order of line, column, then offset.
pub open spec fn position_lt(a: TextPosition, b: TextPosition) -> bool {
    a.line < b.line || (a.line == b.line && (a.column < b.column || (a.column == b.column
        && offset_lt(a.char_offset, b.char_offset))))
}

/// `a` sorts before `b`: by file, then start, then severity.
pub open spec fn sorts_before(a: DiagnosticModel, b: DiagnosticModel) -> bool {
    let f = crate::paths::path_order(a.file, b.file);
    f < 0 || (f == 0 && (position_lt(a.range.start, b.range.start) || (a.range.start
        == b.range.start && severity_rank(a.severity) < severity_rank(b.severity))))
}

/// Where a stable insertion puts `x`: after everything that does not sort
/// after it.
pub open spec fn insert_index(sorted: Seq<DiagnosticModel>, x: DiagnosticModel) -> int
    decreases sorted.len(),
{
    if sorted.len() == 0 {
        0
    } else if sorts_before(x, sorted.last()) {
        insert_index(sorted.drop_last(), x)
    } else {
        sorted.len() as int
    }
}

/// The diagnostics sorted, equal keys keeping their order (a stable sort).
pub open spec fn sort_diagnostics(s: Seq<DiagnosticModel>) -> Seq<DiagnosticModel>
    decreases s.len(),
{
    if s.len() == 0 {
        s
    } else {
        let sorted = sort_diagnostics(s.drop_last());
        sorted.insert(insert_index(sorted, s.last()), s.last())
    }
}

/// All sources' diagnostics, the highest-priority source first.
pub open spec fn by_priority(slots: Seq<Seq<DiagnosticModel>>) -> Seq<DiagnosticModel> {
    slots[0] + slots[1] + slots[2] + slots[3]
}

/// The merged view of the per-source sets.
pub open spec fn merge(slots: Seq<Seq<DiagnosticModel>>) -> Seq<DiagnosticModel> {
    sort_diagnostics(dedupe(by_priority(slots)))
}

/// A diagnostic as a source hands it in: tagged with that source, its path
/// normalised and its message collapsed.
pub open spec fn prepared(d: DiagnosticModel, source: DiagnosticSource) -> DiagnosticModel {
    DiagnosticModel {
        file: crate::paths::normal_form(d.file),
        message: display_message(d.message),
        source,
        ..d
    }
}

pub open spec fn prepared_all(ds: Seq<DiagnosticModel>, source: DiagnosticSource) -> Seq<
    DiagnosticModel,
> {
    ds.map_values(|d: DiagnosticModel| prepared(d, source))
}

/// `d` is marked stale where its file is `file`.
pub open spec fn staled(d: DiagnosticModel, file: Seq<char>) -> DiagnosticModel {
    if crate::paths::path_order(d.file, file) == 0 {
        DiagnosticModel { stale: true, ..d }
    } else {
        d
    }
}

pub open spec fn staled_all(ds: Seq<DiagnosticModel>, file: Seq<char>) -> Seq<DiagnosticModel> {
    ds.map_values(|d: DiagnosticModel| staled(d, file))
}

pub open spec fn count_severity(ds: Seq<DiagnosticModel>, sev: DiagnosticSeverity) -> nat
    decreases ds.len(),
{
    if ds.len() == 0 {
        0
    } else {
        count_severity(ds.drop_last(), sev) + if ds.last().severity == sev { 1nat } else { 0nat }
    }
}

pub open spec fn in_file(ds: Seq<DiagnosticModel>, file: Seq<char>) -> Seq<DiagnosticModel> {
    ds.filter(|d: DiagnosticModel| crate::paths::path_order(d.file, file) == 0)
}

/// Each source's set holds only diagnostics tagged with that source.
pub open spec fn tags_sources(slots: Seq<Seq<DiagnosticModel>>) -> bool {
    forall|p: int, k: int|
        0 <= p < slots.len() && 0 <= k < slots[p].len() ==> crate::diagnostics::model::source_priority(
            (#[trigger] slots[p][k]).source,
        ) == p
}

/// Per-source diagnostics with the generation each came with, and their
/// merged view.
pub struct DiagnosticStore {
    generations: Vec<Option<u64>>,
    by_source: Vec<Vec<Diagnostic>>,
    merged: Vec<Diagnostic>,
}

impl DiagnosticStore {
    /// The generation last accepted from a source.
    pub closed spec fn generation(&self, source: DiagnosticSource) -> Option<u64> {
        self.generations@[crate::diagnostics::model::source_priority(source) as int]
    }

    /// The sets of all sources, by priority.
    pub closed spec fn slots(&self) -> Seq<Seq<DiagnosticModel>> {
        Seq::new(4, |p: int| crate::diagnostics::model::models(self.by_source@[p]@))
    }

    /// The diagnostics of one source.
    pub open spec fn of_source(&self, source: DiagnosticSource) -> Seq<DiagnosticModel> {
        self.slots()[crate::diagnostics::model::source_priority(source) as int]
    }

    /// The merged diagnostics.
    pub closed spec fn merged_view(&self) -> Seq<DiagnosticModel> {
        crate::diagnostics::model::models(self.merged@)
    }

    pub closed spec fn wf(&self) -> bool {
        &&& self.generations@.len() == 4
        &&& self.by_source@.len() == 4
        &&& tags_sources(self.slots())
        &&& self.merged_view() == merge(self.slots())
    }

    pub fn new() -> (s: Self)
        ensures
            s.wf(),
            forall|src: DiagnosticSource| s.generation(src) is None,
            forall|src: DiagnosticSource| s.of_source(src) == Seq::<DiagnosticModel>::empty(),
            s.slots().len() == 4,
            s.merged_view() == Seq::<DiagnosticModel>::empty(),
    {
        let mut generations: Vec<Option<u64>> = Vec::new();
        let mut by_source: Vec<Vec<Diagnostic>> = Vec::new();
        let mut p: usize = 0;
        while p < 4
            invariant
                p <= 4,
                generations@.len() == p,
                by_source@.len() == p,
                forall|k: int| 0 <= k < p ==> (#[trigger] generations@[k]) is None,
                forall|k: int| 0 <= k < p ==> (#[trigger] by_source@[k])@.len() == 0,
            decreases 4 - p,
        {
            generations.push(None);
            by_source.push(Vec::new());
            p = p + 1;
        }
        let s = DiagnosticStore { generations, by_source, merged: Vec::new() };
        assert forall|k: int| 0 <= k < 4 implies s.slots()[k] =~= Seq::<DiagnosticModel>::empty() by {
            assert(s.by_source@[k]@.len() == 0);
        }
        assert(s.slots() =~= seq![Seq::empty(), Seq::empty(), Seq::empty(), Seq::empty()]);
        assert(by_priority(s.slots()) =~= Seq::<DiagnosticModel>::empty());
        assert(s.merged_view() =~= Seq::<DiagnosticModel>::empty());
        assert forall|src: DiagnosticSource| s.of_source(src) == Seq::<DiagnosticModel>::empty() by {
            assert(s.slots()[crate::diagnostics::model::source_priority(src) as int]
                =~= Seq::<DiagnosticModel>::empty());
        }
        s
    }

    /// Replaces a source's diagnostics, unless `generation` is older than
    /// the one last accepted from it; says whether it replaced them.
    pub fn replace_source(
        &mut self,
        source: DiagnosticSource,
        generation: u64,
        diagnostics: Vec<Diagnostic>,
    ) -> (accepted: bool)
        requires
            old(self).wf(),
        ensures
            final(self).wf(),
            accepted == !(old(self).generation(source) matches Some(g) && generation < g),
            accepted ==> final(self).generation(source) == Some(generation),
            accepted ==> final(self).slots() == old(self).slots().update(
                crate::diagnostics::model::source_priority(source) as int,
                prepared_all(crate::diagnostics::model::models(diagnostics@), source),
            ),
            accepted ==> forall|other: DiagnosticSource|
                other != source ==> final(self).generation(other) == old(self).generation(other),
            !accepted ==> final(self).slots() == old(self).slots(),
            !accepted ==> forall|other: DiagnosticSource|
                final(self).generation(other) == old(self).generation(other),
            final(self).slots().len() == 4,
            accepted ==> final(self).of_source(source) == prepared_all(
                crate::diagnostics::model::models(diagnostics@),
                source,
            ),
            forall|other: DiagnosticSource|
                (!accepted || other != source) ==> #[trigger] final(self).of_source(other) == old(self).of_source(other),
            final(self).merged_view() == merge(final(self).slots()),
    {
        let p = source.priority() as usize;
        match self.generations[p] {
            Some(current) => {
                if generation < current {
                    return false;
                }
            },
            None => {},
        }
        let ghost input = crate::diagnostics::model::models(diagnostics@);
        let mut prepared_list: Vec<Diagnostic> = Vec::new();
        let mut i: usize = 0;
        while i < diagnostics.len()
            invariant
                i <= diagnostics@.len(),
                input == crate::diagnostics::model::models(diagnostics@),
                crate::diagnostics::model::models(prepared_list@) == prepared_all(
                    input.take(i as int),
                    source,
                ),
            decreases diagnostics.len() - i,
        {
            let d = &diagnostics[i];
            let file = chars_to_string(normalize_lexically(&str_to_chars(d.file.as_str())).as_slice());
            let message = collapse_message(d.message.as_str());
            let code = match &d.code {
                Some(c) => Some(c.clone()),
                None => None,
            };
            let item = Diagnostic {
                file,
                range: d.range,
                severity: d.severity,
                message,
                source,
                code,
                stale: d.stale,
            };
            let ghost before = prepared_list@;
            prepared_list.push(item);
            proof {
                assert(input.take(i + 1) =~= input.take(i as int).push(input[i as int]));
                assert(crate::diagnostics::model::models(prepared_list@) =~= crate::diagnostics::model::models(before).push(item@));
                assert(prepared_all(input.take(i + 1), source) =~= prepared_all(input.take(i as int), source).push(prepared(input[i as int], source)));
            }
            i = i + 1;
        }
        assert(input.take(i as int) =~= input);
        let ghost old_slots = self.slots();
        self.generations.set(p, Some(generation));
        self.by_source.set(p, prepared_list);
        assert(self.slots() =~= old_slots.update(p as int, prepared_all(input, source)));
        assert(tags_sources(self.slots())) by {
            assert forall|q: int, k: int| 0 <= q < self.slots().len() && 0 <= k < self.slots()[q].len()
                implies crate::diagnostics::model::source_priority((#[trigger] self.slots()[q][k]).source) == q by {
                if q == p as int {
                    assert(self.slots()[q][k] == prepared(input[k], source));
                } else {
                    assert(self.slots()[q] == old_slots[q]);
                }
            }
        }
        self.rebuild();
        true
    }

    /// Empties a source's set, with the same generation rule.
    pub fn clear_source(&mut self, source: DiagnosticSource, generation: u64) -> (accepted: bool)
        requires
            old(self).wf(),
        ensures
            final(self).wf(),
            accepted == !(old(self).generation(source) matches Some(g) && generation < g),
            accepted ==> final(self).generation(source) == Some(generation),
            accepted ==> final(self).slots() == old(self).slots().update(
                crate::diagnostics::model::source_priority(source) as int,
                Seq::<DiagnosticModel>::empty(),
            ),
            accepted ==> forall|other: DiagnosticSource|
                other != source ==> final(self).generation(other) == old(self).generation(other),
            !accepted ==> final(self).slots() == old(self).slots(),
            !accepted ==> forall|other: DiagnosticSource|
                final(self).generation(other) == old(self).generation(other),
            final(self).slots().len() == 4,
            accepted ==> final(self).of_source(source) == Seq::<DiagnosticModel>::empty(),
            forall|other: DiagnosticSource|
                (!accepted || other != source) ==> #[trigger] final(self).of_source(other) == old(self).of_source(other),
            final(self).merged_view() == merge(final(self).slots()),
    {
        let r = self.replace_source(source, generation, Vec::new());
        proof {
            let e = crate::diagnostics::model::models(Seq::<Diagnostic>::empty());
            assert(e =~= Seq::<DiagnosticModel>::empty());
            assert(prepared_all(e, source) =~= Seq::<DiagnosticModel>::empty());
        }
        r
    }

    /// Marks every diagnostic of a file stale.
    pub fn mark_file_stale(&mut self, file: &str)
        requires
            old(self).wf(),
        ensures
            final(self).wf(),
            final(self).slots() == old(self).slots().map_values(
                |ds: Seq<DiagnosticModel>| staled_all(ds, crate::paths::normal_form(file@)),
            ),
            forall|src: DiagnosticSource|
                final(self).generation(src) == old(self).generation(src),
            final(self).slots().len() == 4,
            forall|src: DiagnosticSource|
                #[trigger] final(self).of_source(src) == staled_all(old(self).of_source(src), crate::paths::normal_form(file@)),
            final(self).merged_view() == merge(final(self).slots()),
    {
        let target = normalize_lexically(&str_to_chars(file));
        let ghost nf = crate::paths::normal_form(file@);
        let ghost old_slots = self.slots();
        let mut p: usize = 0;
        while p < 4
            invariant
                p <= 4,
                self.by_source@.len() == 4,
                self.generations@ == old(self).generations@,
                target@ == nf,
                old_slots == old(self).slots(),
                forall|k: int|
                    0 <= k < p ==> crate::diagnostics::model::models(
                        (#[trigger] self.by_source@[k])@,
                    ) == staled_all(old_slots[k], nf),
                forall|k: int|
                    p <= k < 4 ==> crate::diagnostics::model::models(
                        (#[trigger] self.by_source@[k])@,
                    ) == old_slots[k],
            decreases 4 - p,
        {
            let mut list: Vec<Diagnostic> = Vec::new();
            let ghost src = crate::diagnostics::model::models(self.by_source@[p as int]@);
            assert(src == old_slots[p as int]);
            let mut i: usize = 0;
            while i < self.by_source[p].len()
                invariant
                    p < 4,
                    self.by_source@.len() == 4,
                    i <= self.by_source@[p as int]@.len(),
                    src == crate::diagnostics::model::models(self.by_source@[p as int]@),
                    target@ == nf,
                    crate::diagnostics::model::models(list@) == staled_all(src.take(i as int), nf),
                decreases self.by_source@[p as int]@.len() - i,
            {
                let mut d = self.by_source[p][i].duplicate();
                let same = compare_paths(&str_to_chars(d.file.as_str()), &target) == 0;
                if same {
                    d.stale = true;
                }
                let ghost before = list@;
                list.push(d);
                proof {
                    assert(src[i as int] == self.by_source@[p as int]@[i as int]@);
                    assert(src.take(i + 1) =~= src.take(i as int).push(src[i as int]));
                    assert(crate::diagnostics::model::models(list@) =~= crate::diagnostics::model::models(before).push(d@));
                    assert(staled_all(src.take(i + 1), nf) =~= staled_all(src.take(i as int), nf).push(staled(src[i as int], nf)));
                }
                i = i + 1;
            }
            assert(src.take(i as int) =~= src);
            self.by_source.set(p, list);
            p = p + 1;
        }
        assert(self.slots() =~= old_slots.map_values(
            |ds: Seq<DiagnosticModel>| staled_all(ds, nf),
        ));
        assert(tags_sources(self.slots())) by {
            assert forall|q: int, k: int| 0 <= q < self.slots().len() && 0 <= k < self.slots()[q].len()
                implies crate::diagnostics::model::source_priority((#[trigger] self.slots()[q][k]).source) == q by {
                assert(self.slots()[q] == staled_all(old_slots[q], nf));
                assert(self.slots()[q][k] == staled(old_slots[q][k], nf));
                assert(crate::diagnostics::model::source_priority(old_slots[q][k].source) == q);
            }
        }
        self.rebuild();
    }

    /// The merged diagnostics.
    pub fn diagnostics(&self) -> (r: &Vec<Diagnostic>)
        requires
            self.wf(),
        ensures
            crate::diagnostics::model::models(r@) == merge(self.slots()),
    {
        &self.merged
    }

    /// The merged diagnostics of one file, in order.
    pub fn for_file(&self, file: &str) -> (r: Vec<Diagnostic>)
        requires
            self.wf(),
        ensures
            crate::diagnostics::model::models(r@) == in_file(
                merge(self.slots()),
                crate::paths::normal_form(file@),
            ),
    {
        let target = normalize_lexically(&str_to_chars(file));
        let ghost all = crate::diagnostics::model::models(self.merged@);
        let ghost nf = crate::paths::normal_form(file@);
        let mut out: Vec<Diagnostic> = Vec::new();
        let mut i: usize = 0;
        while i < self.merged.len()
            invariant
                i <= self.merged@.len(),
                all == crate::diagnostics::model::models(self.merged@),
                target@ == nf,
                crate::diagnostics::model::models(out@) == in_file(all.take(i as int), nf),
            decreases self.merged.len() - i,
        {
            let d = &self.merged[i];
            let ghost before = out@;
            assert(all.take(i + 1) =~= all.take(i as int).push(all[i as int]));
            assert(all[i as int] == d@);
            if compare_paths(&str_to_chars(d.file.as_str()), &target) == 0 {
                out.push(d.duplicate());
                assert(crate::diagnostics::model::models(out@) =~= crate::diagnostics::model::models(before).push(d@));
            }
            proof {
                let f = |x: DiagnosticModel| crate::paths::path_order(x.file, nf) == 0;
                all.take(i as int).lemma_filter_push(all[i as int], f);
            }
            i = i + 1;
        }
        assert(all.take(i as int) =~= all);
        out
    }

    /// How many merged diagnostics are errors and how many warnings.
    pub fn counts(&self) -> (r: (usize, usize))
        requires
            self.wf(),
        ensures
            r.0 == count_severity(merge(self.slots()), DiagnosticSeverity::Error),
            r.1 == count_severity(merge(self.slots()), DiagnosticSeverity::Warning),
    {
        let ghost all = crate::diagnostics::model::models(self.merged@);
        let mut errors: usize = 0;
        let mut warnings: usize = 0;
        let mut i: usize = 0;
        while i < self.merged.len()
            invariant
                i <= self.merged@.len(),
                all == crate::diagnostics::model::models(self.merged@),
                errors == count_severity(all.take(i as int), DiagnosticSeverity::Error),
                warnings == count_severity(all.take(i as int), DiagnosticSeverity::Warning),
                errors <= i,
                warnings <= i,
            decreases self.merged.len() - i,
        {
            assert(all.take(i + 1).drop_last() =~= all.take(i as int));
            assert(all.take(i + 1).last() == self.merged@[i as int]@);
            match self.merged[i].severity {
                DiagnosticSeverity::Error => errors = errors + 1,
                DiagnosticSeverity::Warning => warnings = warnings + 1,
                _ => {},
            }
            i = i + 1;
        }
        assert(all.take(i as int) =~= all);
        (errors, warnings)
    }

    /// Recomputes the merged view from the per-source sets.
    fn rebuild(&mut self)
        requires
            old(self).generations@.len() == 4,
            old(self).by_source@.len() == 4,
            tags_sources(old(self).slots()),
        ensures
            final(self).generations@ == old(self).generations@,
            final(self).by_source@ == old(self).by_source@,
            final(self).wf(),
    {
        let ghost all = by_priority(self.slots());
        let mut kept: Vec<Diagnostic> = Vec::new();
        let mut keys: Vec<(Vec<char>, String)> = Vec::new();
        let ghost mut done: Seq<DiagnosticModel> = Seq::empty();
        let mut p: usize = 0;
        assert(all =~= self.slots()[0] + self.slots()[1] + self.slots()[2] + self.slots()[3]);
        while p < 4
            invariant
                p <= 4,
                self.by_source@.len() == 4,
                self.generations@.len() == 4,
                self.by_source@ == old(self).by_source@,
                self.generations@ == old(self).generations@,
                all == by_priority(self.slots()),
                done == prefix_of_slots(self.slots(), p as int),
                crate::diagnostics::model::models(kept@) == dedupe(done),
                keys@.len() == kept@.len(),
                forall|k: int|
                    0 <= k < keys@.len() ==> (#[trigger] keys@[k]).0@ == kept@[k].file@
                        && keys@[k].1@ == key_message(kept@[k].message@),
            decreases 4 - p,
        {
            let mut i: usize = 0;
            let ghost slot = self.slots()[p as int];
            assert(done + slot.take(0) =~= done);
            while i < self.by_source[p].len()
                invariant
                    p < 4,
                    self.by_source@.len() == 4,
                    i <= self.by_source@[p as int]@.len(),
                    slot == crate::diagnostics::model::models(self.by_source@[p as int]@),
                    crate::diagnostics::model::models(kept@) == dedupe(done + slot.take(i as int)),
                    keys@.len() == kept@.len(),
                    forall|k: int|
                        0 <= k < keys@.len() ==> (#[trigger] keys@[k]).0@ == kept@[k].file@
                            && keys@[k].1@ == key_message(kept@[k].message@),
                decreases self.by_source@[p as int]@.len() - i,
            {
                let d = &self.by_source[p][i];
                let file = str_to_chars(d.file.as_str());
                let key = to_lowercase(collapse_message(d.message.as_str()).as_str());
                let ghost prev = done + slot.take(i as int);
                let ghost kd = crate::diagnostics::model::models(kept@);
                assert(slot[i as int] == d@);
                assert(done + slot.take(i + 1) =~= prev.push(d@));
                assert(prev.push(d@).drop_last() =~= prev);
                let mut found = false;
                let mut j: usize = 0;
                while j < kept.len()
                    invariant
                        j <= kept@.len() == keys@.len(),
                        kd == crate::diagnostics::model::models(kept@),
                        file@ == d@.file,
                        key@ == key_message(d@.message),
                        forall|k: int|
                            0 <= k < keys@.len() ==> (#[trigger] keys@[k]).0@ == kept@[k].file@
                                && keys@[k].1@ == key_message(kept@[k].message@),
                        found == exists|m: int| 0 <= m < j && same_key(#[trigger] kd[m], d@),
                    decreases kept.len() - j,
                {
                    let e = &kept[j];
                    let same = e.range == d.range && e.severity == d.severity && keys[j].1 == key
                        && compare_paths(&keys[j].0, &file) == 0;
                    assert(kd[j as int] == e@);
                    if same {
                        found = true;
                    }
                    j = j + 1;
                }
                if !found {
                    let ghost before = kept@;
                    kept.push(d.duplicate());
                    keys.push((file, key));
                    assert(crate::diagnostics::model::models(kept@) =~= crate::diagnostics::model::models(before).push(d@));
                }
                i = i + 1;
            }
            assert(slot.take(i as int) =~= slot);
            proof {
                done = done + slot;
                lemma_prefix_step(self.slots(), p as int);
            }
            p = p + 1;
        }
        proof {
            let sl = self.slots();
            assert(prefix_of_slots(sl, 0) =~= Seq::<DiagnosticModel>::empty());
            assert(prefix_of_slots(sl, 1) =~= sl[0]);
            assert(prefix_of_slots(sl, 2) =~= sl[0] + sl[1]);
            assert(prefix_of_slots(sl, 3) =~= sl[0] + sl[1] + sl[2]);
            assert(prefix_of_slots(sl, 4) =~= sl[0] + sl[1] + sl[2] + sl[3]);
        }
        assert(done =~= all);
        self.merged = sort_by_position(kept);
    }
}

/// The sets of the sources before priority `p`, concatenated.
pub open spec fn prefix_of_slots(slots: Seq<Seq<DiagnosticModel>>, p: int) -> Seq<DiagnosticModel>
    decreases p,
{
    if p <= 0 {
        Seq::empty()
    } else {
        prefix_of_slots(slots, p - 1) + slots[p - 1]
    }
}

pub proof fn lemma_prefix_step(slots: Seq<Seq<DiagnosticModel>>, p: int)
    requires
        0 <= p,
    ensures
        prefix_of_slots(slots, p + 1) == prefix_of_slots(slots, p) + slots[p],
{
}

impl Default for DiagnosticStore {
    fn default() -> (s: Self)
        ensures
            s.wf(),
            forall|src: DiagnosticSource| s.generation(src) is None,
            forall|src: DiagnosticSource| s.of_source(src) == Seq::<DiagnosticModel>::empty(),
            s.slots().len() == 4,
            s.merged_view() == Seq::<DiagnosticModel>::empty(),
    {
        DiagnosticStore::new()
    }
}

/// Collapses whitespace runs of a message to single spaces and trims it.
fn collapse_message(message: &str) -> (r: String)
    ensures
        r@ == display_message(message@),
{
    let chars = str_to_chars(message);
    let mut out: Vec<char> = Vec::new();
    let mut gap = false;
    let mut i: usize = 0;
    assert(chars@.skip(0) =~= chars@);
    while i < chars.len()
        invariant
            i <= chars@.len(),
            display_message(message@) == collapse_ws(chars@.skip(i as int), out@, gap),
            chars@ == message@,
        decreases chars.len() - i,
    {
        assert(chars@.skip(i as int).drop_first() =~= chars@.skip(i + 1));
        assert(chars@.skip(i as int)[0] == chars@[i as int]);
        let c = chars[i];
        if is_whitespace(c) {
            gap = out.len() > 0;
        } else {
            if gap {
                out.push(' ');
            }
            out.push(c);
            gap = false;
        }
        i = i + 1;
    }
    assert(chars@.skip(i as int) =~= Seq::<char>::empty());
    chars_to_string(out.as_slice())
}

fn offset_less(a: Option<usize>, b: Option<usize>) -> (r: bool)
    ensures
        r == offset_lt(a, b),
{
    match (a, b) {
        (None, Some(_)) => true,
        (Some(x), Some(y)) => x < y,
        _ => false,
    }
}

fn severity_rank_of(s: DiagnosticSeverity) -> (r: u8)
    ensures
        r as int == severity_rank(s),
{
    match s {
        DiagnosticSeverity::Error => 0,
        DiagnosticSeverity::Warning => 1,
        DiagnosticSeverity::Information => 2,
        DiagnosticSeverity::Hint => 3,
    }
}

fn before(a: &Diagnostic, b: &Diagnostic) -> (r: bool)
    ensures
        r == sorts_before(a@, b@),
{
    let f = compare_paths(&str_to_chars(a.file.as_str()), &str_to_chars(b.file.as_str()));
    if f != 0 {
        return f < 0;
    }
    let x = a.range.start;
    let y = b.range.start;
    let pos_lt = x.line < y.line || (x.line == y.line && (x.column < y.column || (x.column
        == y.column && offset_less(x.char_offset, y.char_offset))));
    if pos_lt {
        return true;
    }
    x == y && severity_rank_of(a.severity) < severity_rank_of(b.severity)
}

fn insert_sorted(sorted: &mut Vec<Diagnostic>, x: Diagnostic)
    ensures
        crate::diagnostics::model::models(final(sorted)@) == crate::diagnostics::model::models(
            old(sorted)@,
        ).insert(insert_index(crate::diagnostics::model::models(old(sorted)@), x@), x@),
{
    let ghost s0 = crate::diagnostics::model::models(sorted@);
    let mut p = sorted.len();
    assert(s0.take(p as int) =~= s0);
    while p > 0 && before(&x, &sorted[p - 1])
        invariant
            p <= sorted@.len(),
            sorted@ == old(sorted)@,
            s0 == crate::diagnostics::model::models(sorted@),
            insert_index(s0, x@) == insert_index(s0.take(p as int), x@),
        decreases p,
    {
        assert(s0.take(p as int).last() == s0[p - 1]);
        assert(s0.take(p as int).drop_last() =~= s0.take(p - 1));
        p = p - 1;
    }
    assert(insert_index(s0.take(p as int), x@) == p) by {
        if p > 0 {
            assert(s0.take(p as int).last() == s0[p - 1]);
        }
    }
    sorted.insert(p, x);
    assert(crate::diagnostics::model::models(sorted@) =~= s0.insert(p as int, x@));
}

/// Stable insertion sort by file, start and severity.
fn sort_by_position(items: Vec<Diagnostic>) -> (r: Vec<Diagnostic>)
    ensures
        crate::diagnostics::model::models(r@) == sort_diagnostics(
            crate::diagnostics::model::models(items@),
        ),
{
    let ghost orig = crate::diagnostics::model::models(items@);
    let n = items.len();
    let mut sorted: Vec<Diagnostic> = Vec::new();
    let mut i: usize = 0;
    assert(orig.take(0) =~= Seq::<DiagnosticModel>::empty());
    while i < n
        invariant
            i <= n == items@.len() == orig.len(),
            orig == crate::diagnostics::model::models(items@),
            crate::diagnostics::model::models(sorted@) == sort_diagnostics(orig.take(i as int)),
        decreases n - i,
    {
        let x = items[i].duplicate();
        assert(x@ == orig[i as int]);
        assert(orig.take(i + 1).drop_last() =~= orig.take(i as int));
        insert_sorted(&mut sorted, x);
        i = i + 1;
    }
    assert(orig.take(n as int) =~= orig);
    sorted
}

/// Coincidence is an equivalence.
pub proof fn lemma_same_key_equivalence()
    ensures
        forall|a: DiagnosticModel| #[trigger] same_key(a, a),
        forall|a: DiagnosticModel, b: DiagnosticModel| same_key(a, b) ==> #[trigger] same_key(b, a),
        forall|a: DiagnosticModel, b: DiagnosticModel, c: DiagnosticModel|
            #![trigger same_key(a, b), same_key(b, c)]
            same_key(a, b) && same_key(b, c) ==> same_key(a, c),
{
    assert forall|a: Seq<char>, b: Seq<char>|
        (#[trigger] crate::paths::path_order(a, b) == 0) == (crate::paths::components(a)
            == crate::paths::components(b)) by {
        crate::paths::lemma_path_order_zero(a, b);
    }
}

/// No two positions of `s` hold coinciding diagnostics.
pub open spec fn distinct_keys(s: Seq<DiagnosticModel>) -> bool {
    forall|i: int, j: int| 0 <= i < j < s.len() ==> !same_key(#[trigger] s[i], #[trigger] s[j])
}

pub proof fn lemma_insert_index_bounds(sorted: Seq<DiagnosticModel>, x: DiagnosticModel)
    ensures
        0 <= insert_index(sorted, x) <= sorted.len(),
    decreases sorted.len(),
{
    if sorted.len() > 0 && sorts_before(x, sorted.last()) {
        lemma_insert_index_bounds(sorted.drop_last(), x);
    }
}

/// Sorting keeps the elements: each output element is an input one, and
/// each input element comes out.
#[verifier::spinoff_prover]
#[verifier::rlimit(50)]
pub proof fn lemma_sort_elements(s: Seq<DiagnosticModel>)
    ensures
        sort_diagnostics(s).len() == s.len(),
        forall|k: int|
            0 <= k < s.len() ==> exists|i: int| 0 <= i < s.len() && s[i] == #[trigger] sort_diagnostics(s)[k],
        forall|i: int|
            0 <= i < s.len() ==> exists|k: int| 0 <= k < s.len() && #[trigger] s[i] == sort_diagnostics(s)[k],
    decreases s.len(),
{
    if s.len() > 0 {
        let p = s.drop_last();
        let t = sort_diagnostics(p);
        let x = s.last();
        lemma_sort_elements(p);
        lemma_insert_index_bounds(t, x);
        let idx = insert_index(t, x);
        let r = t.insert(idx, x);
        assert(r == sort_diagnostics(s));
        assert forall|k: int| 0 <= k < s.len() implies exists|i: int| 0 <= i < s.len() && s[i] == #[trigger] r[k] by {
            if k < idx {
                let i = choose|i: int| 0 <= i < p.len() && p[i] == t[k];
                assert(s[i] == r[k]);
            } else if k == idx {
                assert(s[s.len() - 1] == r[k]);
            } else {
                let i = choose|i: int| 0 <= i < p.len() && p[i] == t[k - 1];
                assert(s[i] == r[k]);
            }
        }
        assert forall|i: int| 0 <= i < s.len() implies exists|k: int| 0 <= k < s.len() && #[trigger] s[i] == r[k] by {
            if i == s.len() - 1 {
                assert(s[i] == r[idx]);
            } else {
                assert(s[i] == p[i]);
                let k = choose|k: int| 0 <= k < p.len() && p[i] == t[k];
                if k < idx {
                    assert(s[i] == r[k]);
                } else {
                    assert(s[i] == r[k + 1]);
                }
            }
        }
    }
}

#[verifier::spinoff_prover]
#[verifier::rlimit(50)]
pub proof fn lemma_sort_distinct(s: Seq<DiagnosticModel>)
    requires
        distinct_keys(s),
    ensures
        distinct_keys(sort_diagnostics(s)),
    decreases s.len(),
{
    if s.len() > 0 {
        let p = s.drop_last();
        let t = sort_diagnostics(p);
        let x = s.last();
        assert(distinct_keys(p)) by {
            assert forall|i: int, j: int| 0 <= i < j < p.len() implies !same_key(#[trigger] p[i], #[trigger] p[j]) by {
                assert(s[i] == p[i] && s[j] == p[j]);
            }
        }
        lemma_sort_distinct(p);
        lemma_sort_elements(p);
        lemma_insert_index_bounds(t, x);
        lemma_same_key_equivalence();
        let idx = insert_index(t, x);
        let r = t.insert(idx, x);
        assert forall|k: int| 0 <= k < t.len() implies !same_key(#[trigger] t[k], x) && !same_key(x, t[k]) by {
            let i = choose|i: int| 0 <= i < p.len() && p[i] == t[k];
            assert(s[i] == p[i]);
            assert(!same_key(s[i], s[s.len() - 1]));
        }
        assert forall|i: int, j: int| 0 <= i < j < r.len() implies !same_key(#[trigger] r[i], #[trigger] r[j]) by {
            if j < idx {
                assert(r[i] == t[i] && r[j] == t[j]);
            } else if j == idx {
                assert(r[i] == t[i]);
            } else if i < idx {
                assert(r[i] == t[i] && r[j] == t[j - 1]);
            } else if i == idx {
                assert(r[j] == t[j - 1]);
            } else {
                assert(r[i] == t[i - 1] && r[j] == t[j - 1]);
            }
        }
    }
}

pub proof fn lemma_dedupe_distinct(s: Seq<DiagnosticModel>)
    ensures
        distinct_keys(dedupe(s)),
    decreases s.len(),
{
    if s.len() > 0 {
        lemma_dedupe_distinct(s.drop_last());
        let d = dedupe(s.drop_last());
        let x = s.last();
        if !has_key(d, x) {
            let r = d.push(x);
            assert forall|i: int, j: int| 0 <= i < j < r.len() implies !same_key(#[trigger] r[i], #[trigger] r[j]) by {
                if j == d.len() {
                    assert(r[i] == d[i]);
                } else {
                    assert(r[i] == d[i] && r[j] == d[j]);
                }
            }
        }
    }
}

/// Every element of `s` has a coinciding one in `dedupe(s)`, and `dedupe(s)`
/// keeps each earlier result as its prefix.
pub proof fn lemma_dedupe_covers(s: Seq<DiagnosticModel>)
    ensures
        forall|i: int| 0 <= i < s.len() ==> has_key(dedupe(s), #[trigger] s[i]),
    decreases s.len(),
{
    if s.len() > 0 {
        let p = s.drop_last();
        lemma_dedupe_covers(p);
        lemma_same_key_equivalence();
        let d = dedupe(p);
        let x = s.last();
        let r = dedupe(s);
        assert forall|i: int| 0 <= i < s.len() implies has_key(r, #[trigger] s[i]) by {
            if i == s.len() - 1 {
                if !has_key(d, x) {
                    assert(r[d.len() as int] == x);
                    assert(same_key(x, x));
                }
            } else {
                assert(s[i] == p[i]);
                assert(has_key(d, p[i]));
                let j = choose|j: int| 0 <= j < d.len() && same_key(#[trigger] d[j], p[i]);
                assert(r[j] == d[j]);
            }
        }
    }
}

/// Each element of `dedupe(s)` is the first of its key in `s`.
#[verifier::spinoff_prover]
#[verifier::rlimit(50)]
pub proof fn lemma_dedupe_first(s: Seq<DiagnosticModel>)
    ensures
        forall|k: int|
            0 <= k < dedupe(s).len() ==> exists|j: int|
                0 <= j < s.len() && s[j] == #[trigger] dedupe(s)[k] && forall|m: int|
                    0 <= m < j ==> !same_key(#[trigger] s[m], s[j]),
    decreases s.len(),
{
    if s.len() > 0 {
        let p = s.drop_last();
        lemma_dedupe_first(p);
        lemma_dedupe_covers(p);
        lemma_same_key_equivalence();
        let d = dedupe(p);
        let x = s.last();
        let r = dedupe(s);
        assert forall|k: int| 0 <= k < r.len() implies exists|j: int|
            0 <= j < s.len() && s[j] == #[trigger] r[k] && forall|m: int|
                0 <= m < j ==> !same_key(#[trigger] s[m], s[j]) by {
            if k < d.len() {
                let j = choose|j: int|
                    0 <= j < p.len() && p[j] == #[trigger] d[k] && forall|m: int|
                        0 <= m < j ==> !same_key(#[trigger] p[m], p[j]);
                assert(r[k] == d[k]);
                assert(s[j] == p[j]);
                assert forall|m: int| 0 <= m < j implies !same_key(#[trigger] s[m], s[j]) by {
                    assert(s[m] == p[m]);
                }
            } else {
                let j = s.len() - 1;
                assert(r[k] == x);
                assert forall|m: int| 0 <= m < j implies !same_key(#[trigger] s[m], s[j]) by {
                    assert(s[m] == p[m]);
                    assert(has_key(d, p[m]));
                    let e = choose|e: int| 0 <= e < d.len() && same_key(#[trigger] d[e], p[m]);
                    if same_key(s[m], s[j]) {
                        assert(same_key(d[e], x));
                    }
                }
            }
        }
    }
}

/// The merged list never holds two coinciding diagnostics.
pub proof fn lemma_merged_distinct(slots: Seq<Seq<DiagnosticModel>>)
    ensures
        distinct_keys(merge(slots)),
{
    lemma_dedupe_distinct(by_priority(slots));
    lemma_sort_distinct(dedupe(by_priority(slots)));
}

/// Nothing a source reports is lost: each has a coinciding diagnostic in
/// the merged list.
pub proof fn lemma_merged_covers(slots: Seq<Seq<DiagnosticModel>>)
    ensures
        forall|i: int|
            0 <= i < by_priority(slots).len() ==> has_key(
                merge(slots),
                #[trigger] by_priority(slots)[i],
            ),
{
    let all = by_priority(slots);
    let d = dedupe(all);
    lemma_dedupe_covers(all);
    lemma_sort_elements(d);
    assert forall|i: int| 0 <= i < all.len() implies has_key(merge(slots), #[trigger] all[i]) by {
        let j = choose|j: int| 0 <= j < d.len() && same_key(#[trigger] d[j], all[i]);
        let k = choose|k: int| 0 <= k < d.len() && #[trigger] d[j] == sort_diagnostics(d)[k];
        assert(same_key(merge(slots)[k], all[i]));
    }
}

/// Of coinciding diagnostics the merged list keeps the first in priority
/// order: that of the highest-priority source, and within a source the
/// earliest.
pub proof fn lemma_merged_first_wins(slots: Seq<Seq<DiagnosticModel>>)
    ensures
        forall|k: int|
            0 <= k < merge(slots).len() ==> exists|j: int|
                0 <= j < by_priority(slots).len() && by_priority(slots)[j]
                    == #[trigger] merge(slots)[k] && forall|m: int|
                    0 <= m < j ==> !same_key(#[trigger] by_priority(slots)[m], by_priority(slots)[j]),
{
    let all = by_priority(slots);
    let d = dedupe(all);
    lemma_dedupe_first(all);
    lemma_sort_elements(d);
    assert forall|k: int| 0 <= k < merge(slots).len() implies exists|j: int|
        0 <= j < all.len() && all[j] == #[trigger] merge(slots)[k] && forall|m: int|
            0 <= m < j ==> !same_key(#[trigger] all[m], all[j]) by {
        let i = choose|i: int| 0 <= i < d.len() && d[i] == #[trigger] sort_diagnostics(d)[k];
        let j = choose|j: int|
            0 <= j < all.len() && all[j] == #[trigger] d[i] && forall|m: int|
                0 <= m < j ==> !same_key(#[trigger] all[m], all[j]);
        assert(all[j] == merge(slots)[k]);
    }
}


/// Each source's set holds only diagnostics tagged with that source: a
/// replacement leaves no entry of the source anywhere but in its new set.
pub proof fn lemma_source_tags(store: &DiagnosticStore)
    requires
        store.wf(),
    ensures
        forall|src: DiagnosticSource, k: int|
            0 <= k < store.of_source(src).len() ==> (#[trigger] store.of_source(src)[k]).source == src,
{
    assert forall|src: DiagnosticSource, k: int| 0 <= k < store.of_source(src).len() implies (
    #[trigger] store.of_source(src)[k]).source == src by {
        let p = crate::diagnostics::model::source_priority(src) as int;
        assert(crate::diagnostics::model::source_priority(store.slots()[p][k].source) == p);
    }
}

/// Every merged diagnostic is one of its own source's set.
pub proof fn lemma_merged_from_own_source(store: &DiagnosticStore)
    requires
        store.wf(),
    ensures
        forall|k: int|
            0 <= k < merge(store.slots()).len() ==> store.of_source(
                (#[trigger] merge(store.slots())[k]).source,
            ).contains(merge(store.slots())[k]),
{
    let slots = store.slots();
    let all = by_priority(slots);
    lemma_merged_first_wins(slots);
    assert forall|k: int| 0 <= k < merge(slots).len() implies store.of_source(
        (#[trigger] merge(slots)[k]).source,
    ).contains(merge(slots)[k]) by {
        let x = merge(slots)[k];
        let j = choose|j: int|
            0 <= j < all.len() && all[j] == #[trigger] merge(slots)[k] && forall|m: int|
                0 <= m < j ==> !same_key(#[trigger] all[m], all[j]);
        let n0 = slots[0].len() as int;
        let n1 = slots[1].len() as int;
        let n2 = slots[2].len() as int;
        let (q, i) = if j < n0 {
            (0int, j)
        } else if j < n0 + n1 {
            (1int, j - n0)
        } else if j < n0 + n1 + n2 {
            (2int, j - n0 - n1)
        } else {
            (3int, j - n0 - n1 - n2)
        };
        assert(all[j] == slots[q][i]);
        assert(crate::diagnostics::model::source_priority(slots[q][i].source) == q);
        assert(store.of_source(x.source) == slots[q]);
        assert(slots[q][i] == x);
    }
}

/// A source with an empty set has nothing in the merged list: clearing a
/// source removes all its entries.
pub proof fn lemma_cleared_source_absent(store: &DiagnosticStore, source: DiagnosticSource)
    requires
        store.wf(),
        store.of_source(source).len() == 0,
    ensures
        forall|k: int| 0 <= k < merge(store.slots()).len() ==> (#[trigger] merge(store.slots())[k]).source != source,
{
    lemma_merged_from_own_source(store);
    assert forall|k: int| 0 <= k < merge(store.slots()).len() implies (#[trigger] merge(store.slots())[k]).source
        != source by {
        let x = merge(store.slots())[k];
        assert(store.of_source(x.source).contains(x));
    }
}


/// No diagnostic of `s` sorts before one that comes earlier.
pub open spec fn sorted_diagnostics(s: Seq<DiagnosticModel>) -> bool {
    forall|i: int, j: int| 0 <= i < j < s.len() ==> !sorts_before(#[trigger] s[j], #[trigger] s[i])
}

/// `sorts_before` is a strict weak order: asymmetric, and not sorting before
/// is transitive.
proof fn lemma_sorts_before_order(a: DiagnosticModel, b: DiagnosticModel, c: DiagnosticModel)
    ensures
        sorts_before(a, b) ==> !sorts_before(b, a),
        !sorts_before(a, b) && !sorts_before(b, c) ==> !sorts_before(a, c),
{
    crate::paths::lemma_path_order_total(a.file, b.file, c.file);
    crate::paths::lemma_path_order_total(b.file, c.file, a.file);
    crate::paths::lemma_path_order_total(c.file, a.file, b.file);
    crate::paths::lemma_path_order_total(c.file, b.file, a.file);
    crate::paths::lemma_path_order_total(a.file, c.file, b.file);
    crate::paths::lemma_path_order_total(b.file, a.file, c.file);
}

proof fn lemma_insert_index_places(sorted: Seq<DiagnosticModel>, x: DiagnosticModel)
    ensures
        0 <= insert_index(sorted, x) <= sorted.len(),
        forall|k: int| insert_index(sorted, x) <= k < sorted.len() ==> sorts_before(x, #[trigger] sorted[k]),
        insert_index(sorted, x) > 0 ==> !sorts_before(x, sorted[insert_index(sorted, x) - 1]),
    decreases sorted.len(),
{
    if sorted.len() > 0 && sorts_before(x, sorted.last()) {
        let p = sorted.drop_last();
        lemma_insert_index_places(p, x);
        assert forall|k: int| insert_index(sorted, x) <= k < sorted.len() implies sorts_before(x, #[trigger] sorted[k]) by {
            if k < p.len() {
                assert(sorted[k] == p[k]);
            }
        }
        if insert_index(sorted, x) > 0 {
            assert(sorted[insert_index(sorted, x) - 1] == p[insert_index(p, x) - 1]);
        }
    }
}

proof fn lemma_sort_sorted(s: Seq<DiagnosticModel>)
    ensures
        sorted_diagnostics(sort_diagnostics(s)),
    decreases s.len(),
{
    if s.len() > 0 {
        let t = sort_diagnostics(s.drop_last());
        let x = s.last();
        lemma_sort_sorted(s.drop_last());
        lemma_insert_index_places(t, x);
        let idx = insert_index(t, x);
        let r = t.insert(idx, x);
        assert(r == sort_diagnostics(s));
        assert forall|i: int, j: int| 0 <= i < j < r.len() implies !sorts_before(#[trigger] r[j], #[trigger] r[i]) by {
            if j < idx {
                assert(r[i] == t[i] && r[j] == t[j]);
            } else if j == idx {
                assert(r[i] == t[i]);
                lemma_sorts_before_order(x, t[idx - 1], t[i]);
                if i < idx - 1 {
                    assert(!sorts_before(t[idx - 1], t[i]));
                }
            } else if i == idx {
                assert(r[j] == t[j - 1]);
                assert(sorts_before(x, t[j - 1]));
                lemma_sorts_before_order(x, t[j - 1], x);
            } else if i < idx {
                assert(r[i] == t[i] && r[j] == t[j - 1]);
            } else {
                assert(r[i] == t[i - 1] && r[j] == t[j - 1]);
            }
        }
    }
}

/// The merged list is sorted by file, then start, then severity: no entry
/// sorts before an earlier one.
pub proof fn lemma_merged_sorted(slots: Seq<Seq<DiagnosticModel>>)
    ensures
        sorted_diagnostics(merge(slots)),
{
    lemma_sort_sorted(dedupe(by_priority(slots)));
}


/// A file's diagnostics are looked up by the lexical normal form of its
/// path: two paths with the same normal form (such as `src/./main.rs` and
/// `src/main.rs`) give the same entries, in merged order.
pub proof fn lemma_for_file_by_normal_form(slots: Seq<Seq<DiagnosticModel>>, a: Seq<char>, b: Seq<char>)
    requires
        crate::paths::normal_form(a) == crate::paths::normal_form(b),
    ensures
        in_file(merge(slots), crate::paths::normal_form(a)) == in_file(merge(slots), crate::paths::normal_form(b)),
{
}
} // verus!
