//! Per-build-unit progress and the set of distinct diagnostics.
use vstd::prelude::*;

verus! {

/// What is known of one build unit (a package, or its build script).
pub struct BuildUnit {
    pub id: String,
    pub script_built: bool,
    pub script_executed: bool,
    pub compiled: bool,
}

pub struct BuildUnitView {
    pub id: Seq<char>,
    pub script_built: bool,
    pub script_executed: bool,
    pub compiled: bool,
}

impl View for BuildUnit {
    type V = BuildUnitView;

    open spec fn view(&self) -> BuildUnitView {
        BuildUnitView {
            id: self.id@,
            script_built: self.script_built,
            script_executed: self.script_executed,
            compiled: self.compiled,
        }
    }
}

/// One step of a unit's progress.
#[derive(Clone, Copy, Debug, PartialEq, Eq, Structural)]
pub enum UnitFlag {
    ScriptBuilt,
    ScriptExecuted,
    Compiled,
}

pub open spec fn units_view(units: Seq<BuildUnit>) -> Seq<BuildUnitView> {
    units.map_values(|u: BuildUnit| u@)
}

/// Index of the first unit with the given id.
pub open spec fn find_unit(units: Seq<BuildUnitView>, id: Seq<char>) -> Option<nat>
    decreases units.len(),
{
    if units.len() == 0 {
        None
    } else if units[0].id == id {
        Some(0)
    } else {
        match find_unit(units.skip(1), id) {
            Some(i) => Some(i + 1),
            None => None,
        }
    }
}

pub open spec fn with_flag(u: BuildUnitView, flag: UnitFlag) -> BuildUnitView {
    BuildUnitView {
        id: u.id,
        script_built: u.script_built || flag == UnitFlag::ScriptBuilt,
        script_executed: u.script_executed || flag == UnitFlag::ScriptExecuted,
        compiled: u.compiled || flag == UnitFlag::Compiled,
    }
}

/// Sets `flag` on the unit `id`, creating the unit on its first event.
pub open spec fn mark_unit(units: Seq<BuildUnitView>, id: Seq<char>, flag: UnitFlag) -> Seq<BuildUnitView> {
    match find_unit(units, id) {
        Some(i) => units.update(i as int, with_flag(units[i as int], flag)),
        None => units.push(
            with_flag(
                BuildUnitView { id, script_built: false, script_executed: false, compiled: false },
                flag,
            ),
        ),
    }
}

/// Adds a rendered diagnostic unless the same text is already there.
pub open spec fn insert_diagnostic(diagnostics: Seq<Seq<char>>, text: Seq<char>) -> Seq<Seq<char>> {
    if diagnostics.contains(text) {
        diagnostics
    } else {
        diagnostics.push(text)
    }
}

/// How many times `x` occurs in `s`.
pub open spec fn occurrences(s: Seq<Seq<char>>, x: Seq<char>) -> nat
    decreases s.len(),
{
    if s.len() == 0 {
        0
    } else {
        occurrences(s.drop_last(), x) + if s.last() == x { 1nat } else { 0nat }
    }
}

proof fn lemma_find_unit_bound(units: Seq<BuildUnitView>, id: Seq<char>)
    ensures
        match find_unit(units, id) {
            Some(i) => i < units.len() && units[i as int].id == id,
            None => forall|j: int| 0 <= j < units.len() ==> units[j].id != id,
        },
    decreases units.len(),
{
    if units.len() > 0 {
        lemma_find_unit_bound(units.skip(1), id);
        if units[0].id != id {
            assert forall|j: int| 0 < j < units.len() implies units.skip(1)[j - 1] == units[j] by {}
        }
    }
}

pub fn mark_unit_exec(units: &mut Vec<BuildUnit>, id: String, flag: UnitFlag)
    ensures
        units_view(final(units)@) == mark_unit(units_view(old(units)@), id@, flag),
{
    let ghost all = units_view(units@);
    assert(all.skip(0) =~= all);
    let mut i: usize = 0;
    while i < units.len()
        invariant
            i <= units@.len(),
            all == units_view(units@),
            all == units_view(old(units)@),
            find_unit(all, id@) == match find_unit(all.skip(i as int), id@) {
                Some(k) => Some((k + i) as nat),
                None => None::<nat>,
            },
        decreases units@.len() - i,
    {
        proof {
            assert(all.skip(i as int).skip(1) =~= all.skip(i as int + 1));
        }
        if units[i].id == id {
            proof {
                assert(all.skip(i as int)[0] == all[i as int]);
                assert(all[i as int].id == id@);
                assert(find_unit(all.skip(i as int), id@) == Some(0nat));
                assert(find_unit(all, id@) == Some(i as nat));
            }
            let mut u = units.remove(i);
            match flag {
                UnitFlag::ScriptBuilt => u.script_built = true,
                UnitFlag::ScriptExecuted => u.script_executed = true,
                UnitFlag::Compiled => u.compiled = true,
            }
            units.insert(i, u);
            proof {
                assert(units_view(units@) =~= all.update(i as int, with_flag(all[i as int], flag)));
            }
            return;
        }
        i = i + 1;
    }
    let u = BuildUnit {
        id,
        script_built: flag == UnitFlag::ScriptBuilt,
        script_executed: flag == UnitFlag::ScriptExecuted,
        compiled: flag == UnitFlag::Compiled,
    };
    units.push(u);
    proof {
        assert(all.skip(i as int).len() == 0);
        assert(units_view(units@) =~= all.push(u@));
    }
}

pub fn insert_diagnostic_exec(diagnostics: &mut Vec<String>, text: String)
    ensures
        final(diagnostics)@.map_values(|d: String| d@) == insert_diagnostic(
            old(diagnostics)@.map_values(|d: String| d@),
            text@,
        ),
{
    let ghost all = diagnostics@.map_values(|d: String| d@);
    let mut i: usize = 0;
    while i < diagnostics.len()
        invariant
            i <= diagnostics@.len(),
            all == diagnostics@.map_values(|d: String| d@),
            forall|j: int| 0 <= j < i ==> all[j] != text@,
        decreases diagnostics@.len() - i,
    {
        if diagnostics[i] == text {
            assert(all[i as int] == text@);
            assert(all.contains(text@));
            return;
        }
        i = i + 1;
    }
    diagnostics.push(text);
    proof {
        assert(!all.contains(text@));
        assert(diagnostics@.map_values(|d: String| d@) =~= all.push(text@));
    }
}

proof fn lemma_occurrences_absent(s: Seq<Seq<char>>, x: Seq<char>)
    requires
        !s.contains(x),
    ensures
        occurrences(s, x) == 0,
    decreases s.len(),
{
    if s.len() > 0 {
        assert(!s.drop_last().contains(x)) by {
            if s.drop_last().contains(x) {
                let j = choose|j: int| 0 <= j < s.drop_last().len() && s.drop_last()[j] == x;
                assert(s[j] == x);
            }
        }
        lemma_occurrences_absent(s.drop_last(), x);
    }
}

proof fn lemma_occurrences_unique(s: Seq<Seq<char>>, x: Seq<char>)
    requires
        s.no_duplicates(),
        s.contains(x),
    ensures
        occurrences(s, x) == 1,
    decreases s.len(),
{
    let init = s.drop_last();
    if s.last() == x {
        assert(!init.contains(x)) by {
            if init.contains(x) {
                let j = choose|j: int| 0 <= j < init.len() && init[j] == x;
                assert(s[j] == s[s.len() - 1]);
            }
        }
        lemma_occurrences_absent(init, x);
    } else {
        let j = choose|j: int| 0 <= j < s.len() && s[j] == x;
        assert(init[j] == x);
        assert(init.no_duplicates()) by {
            assert forall|a: int, b: int| 0 <= a < init.len() && 0 <= b < init.len() && a != b
                implies init[a] != init[b] by {
                assert(s[a] != s[b]);
            }
        }
        lemma_occurrences_unique(init, x);
    }
}

/// Inserting a diagnostic keeps the texts distinct.
pub proof fn lemma_insert_keeps_distinct(d: Seq<Seq<char>>, text: Seq<char>)
    requires
        d.no_duplicates(),
    ensures
        insert_diagnostic(d, text).no_duplicates(),
{
    if !d.contains(text) {
        let e = d.push(text);
        assert forall|a: int, b: int| 0 <= a < e.len() && 0 <= b < e.len() && a != b
            implies e[a] != e[b] by {
            if a == d.len() as int {
                assert(e[b] == d[b]);
            } else if b == d.len() as int {
                assert(e[a] == d[a]);
            } else {
                assert(d[a] != d[b]);
            }
        }
    }
}

/// Diagnostic insertion is idempotent: inserting the same rendered text twice
/// leaves the set as inserting it once, holding that text exactly once.
pub proof fn lemma_diagnostic_idempotent(d: Seq<Seq<char>>, text: Seq<char>)
    requires
        d.no_duplicates(),
    ensures
        insert_diagnostic(insert_diagnostic(d, text), text) == insert_diagnostic(d, text),
        occurrences(insert_diagnostic(insert_diagnostic(d, text), text), text) == 1,
{
    let once = insert_diagnostic(d, text);
    assert(once.contains(text)) by {
        if !d.contains(text) {
            assert(once[d.len() as int] == text);
        }
    }
    lemma_insert_keeps_distinct(d, text);
    lemma_occurrences_unique(once, text);
}

} // verus!
