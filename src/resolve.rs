//! Which fixtures an effect drives: explicit fixture ids, every fixture of the
//! active patch, or the members of a group and of the groups it holds.

use vstd::prelude::*;

use crate::lookup::{find_index, first_index, lemma_first_index_valid};
use crate::model::{Group, Output, OutputKind, OutputTarget, Project, QualifiedFixtureId};

verus! {

/// The ids of the fixtures (or segments) of one output of patch `patch`, in
/// the order the output lists them.
pub open spec fn output_fixture_ids(patch: u64, o: Output) -> Seq<QualifiedFixtureId> {
    match o.output {
        Some(OutputKind::SerialDmx { fixtures }) => fixtures@.map_values(
            |f: crate::model::PhysicalDmxFixture| QualifiedFixtureId { patch, output: o.id, fixture: f.id },
        ),
        Some(OutputKind::SacnDmx { universe, ip_address, fixtures }) => fixtures@.map_values(
            |f: crate::model::PhysicalDmxFixture| QualifiedFixtureId { patch, output: o.id, fixture: f.id },
        ),
        Some(OutputKind::Wled { ip_address, segments }) => segments@.map_values(
            |s: u32| QualifiedFixtureId { patch, output: o.id, fixture: s as u64 },
        ),
        None => Seq::empty(),
    }
}

/// The ids of every fixture of a list of outputs, output by output.
pub open spec fn outputs_fixture_ids(patch: u64, outs: Seq<Output>) -> Seq<QualifiedFixtureId>
    decreases outs.len(),
{
    if outs.len() == 0 {
        Seq::empty()
    } else {
        outputs_fixture_ids(patch, outs.drop_last()) + output_fixture_ids(patch, outs.last())
    }
}

/// Every fixture of the active patch, output by output in the order the patch
/// lists them; none where that patch is missing.
pub open spec fn all_fixture_ids(project: Project) -> Seq<QualifiedFixtureId> {
    match first_index(project.patches@, project.active_patch) {
        Some(p) => outputs_fixture_ids(project.active_patch, project.patches@[p].outputs@),
        None => Seq::empty(),
    }
}

fn push_output_ids(out: &mut Vec<QualifiedFixtureId>, patch: u64, o: &Output)
    ensures
        final(out)@ == old(out)@ + output_fixture_ids(patch, *o),
{
    let ghost start = out@;
    match &o.output {
        Some(OutputKind::SerialDmx { fixtures }) | Some(OutputKind::SacnDmx { fixtures, .. }) => {
            let mut i: usize = 0;
            while i < fixtures.len()
                invariant
                    0 <= i <= fixtures.len(),
                    out@ =~= start + fixtures@.take(i as int).map_values(
                        |f: crate::model::PhysicalDmxFixture| QualifiedFixtureId { patch, output: o.id, fixture: f.id },
                    ),
                decreases fixtures.len() - i,
            {
                out.push(QualifiedFixtureId { patch, output: o.id, fixture: fixtures[i].id });
                i = i + 1;
            }
            assert(fixtures@.take(i as int) =~= fixtures@);
        },
        Some(OutputKind::Wled { segments, .. }) => {
            let mut i: usize = 0;
            while i < segments.len()
                invariant
                    0 <= i <= segments.len(),
                    out@ =~= start + segments@.take(i as int).map_values(
                        |s: u32| QualifiedFixtureId { patch, output: o.id, fixture: s as u64 },
                    ),
                decreases segments.len() - i,
            {
                out.push(QualifiedFixtureId { patch, output: o.id, fixture: segments[i] as u64 });
                i = i + 1;
            }
            assert(segments@.take(i as int) =~= segments@);
        },
        None => {
            assert(out@ =~= start + output_fixture_ids(patch, *o));
        },
    }
}

/// Every fixture (and WLED segment) of the active patch, output by output in
/// listed order.
fn listed_fixture_ids(project: &Project) -> (r: Vec<QualifiedFixtureId>)
    ensures
        r@ == all_fixture_ids(*project),
{
    let mut out: Vec<QualifiedFixtureId> = Vec::new();
    proof {
        lemma_first_index_valid(project.patches@, project.active_patch);
    }
    let p = match find_index(&project.patches, project.active_patch) {
        Some(p) => p,
        None => return out,
    };
    let outs = &project.patches[p].outputs;
    let mut i: usize = 0;
    while i < outs.len()
        invariant
            0 <= i <= outs.len(),
            out@ == outputs_fixture_ids(project.active_patch, outs@.take(i as int)),
        decreases outs.len() - i,
    {
        assert(outs@.take(i as int + 1).drop_last() =~= outs@.take(i as int));
        push_output_ids(&mut out, project.active_patch, &outs[i]);
        i = i + 1;
    }
    assert(outs@.take(i as int) =~= outs@);
    out
}

// ---------------------------------------------------------------- targets

/// The ids of a list that belong to patch `patch`, in order.
pub open spec fn in_patch(ids: Seq<QualifiedFixtureId>, patch: u64) -> Seq<QualifiedFixtureId>
    decreases ids.len(),
{
    if ids.len() == 0 {
        Seq::empty()
    } else {
        in_patch(ids.drop_last(), patch) + if ids.last().patch == patch {
            seq![ids.last()]
        } else {
            Seq::empty()
        }
    }
}

/// The fixture ids that a group lists directly, kept to patch `patch`.
pub open spec fn group_fixtures(targets: Seq<OutputTarget>, patch: u64) -> Seq<QualifiedFixtureId>
    decreases targets.len(),
{
    if targets.len() == 0 {
        Seq::empty()
    } else {
        group_fixtures(targets.drop_last(), patch) + match targets.last() {
            OutputTarget::Fixtures(ids) => in_patch(ids@, patch),
            OutputTarget::Group(_) => Seq::empty(),
        }
    }
}

/// The groups that a group holds, in order.
pub open spec fn group_children(targets: Seq<OutputTarget>) -> Seq<u64>
    decreases targets.len(),
{
    if targets.len() == 0 {
        Seq::empty()
    } else {
        group_children(targets.drop_last()) + match targets.last() {
            OutputTarget::Fixtures(_) => Seq::empty(),
            OutputTarget::Group(g) => seq![g],
        }
    }
}

/// The members of the groups on a work list, taken last first: a group lists
/// its fixture ids, then the groups it holds go on the list. Each group is
/// expanded once (`visited` marks groups by position); groups that do not
/// exist are passed over.
pub open spec fn expand_groups(
    groups: Seq<Group>,
    patch: u64,
    stack: Seq<u64>,
    visited: Seq<bool>,
    fuel: nat,
) -> Seq<QualifiedFixtureId>
    decreases fuel, stack.len(),
{
    if stack.len() == 0 {
        Seq::empty()
    } else {
        let rest = stack.drop_last();
        match first_index(groups, stack.last()) {
            Some(gi) => if 0 <= gi < visited.len() && !visited[gi] && fuel > 0 {
                group_fixtures(groups[gi].targets@, patch) + expand_groups(
                    groups,
                    patch,
                    rest + group_children(groups[gi].targets@),
                    visited.update(gi, true),
                    (fuel - 1) as nat,
                )
            } else {
                expand_groups(groups, patch, rest, visited, fuel)
            },
            None => expand_groups(groups, patch, rest, visited, fuel),
        }
    }
}

/// The fixtures an output target stands for: the listed ids of the active
/// patch, in order; every fixture of the active patch for group 0, ordered by
/// output id, then fixture id, each once; the
/// members of any other group.
pub open spec fn target_fixtures(project: Project, target: OutputTarget) -> Seq<QualifiedFixtureId> {
    match target {
        OutputTarget::Fixtures(ids) => in_patch(ids@, project.active_patch),
        OutputTarget::Group(g) => if g == 0 {
            patch_fixture_ids(project)
        } else {
            expand_groups(
                project.groups@,
                project.active_patch,
                seq![g],
                Seq::new(project.groups@.len(), |i: int| false),
                project.groups@.len(),
            )
        },
    }
}

fn push_in_patch(out: &mut Vec<QualifiedFixtureId>, ids: &Vec<QualifiedFixtureId>, patch: u64)
    ensures
        final(out)@ == old(out)@ + in_patch(ids@, patch),
{
    let ghost start = out@;
    let mut i: usize = 0;
    while i < ids.len()
        invariant
            0 <= i <= ids.len(),
            out@ == start + in_patch(ids@.take(i as int), patch),
        decreases ids.len() - i,
    {
        assert(ids@.take(i as int + 1).drop_last() =~= ids@.take(i as int));
        if ids[i].patch == patch {
            out.push(ids[i]);
        }
        assert(out@ =~= start + in_patch(ids@.take(i as int + 1), patch));
        i = i + 1;
    }
    assert(ids@.take(i as int) =~= ids@);
}

fn expand_one(out: &mut Vec<QualifiedFixtureId>, stack: &mut Vec<u64>, targets: &Vec<OutputTarget>, patch: u64)
    ensures
        final(out)@ == old(out)@ + group_fixtures(targets@, patch),
        final(stack)@ == old(stack)@ + group_children(targets@),
{
    let ghost out0 = out@;
    let ghost stack0 = stack@;
    let mut i: usize = 0;
    while i < targets.len()
        invariant
            0 <= i <= targets.len(),
            out@ == out0 + group_fixtures(targets@.take(i as int), patch),
            stack@ == stack0 + group_children(targets@.take(i as int)),
        decreases targets.len() - i,
    {
        assert(targets@.take(i as int + 1).drop_last() =~= targets@.take(i as int));
        match &targets[i] {
            OutputTarget::Fixtures(ids) => push_in_patch(out, ids, patch),
            OutputTarget::Group(g) => stack.push(*g),
        }
        assert(out@ =~= out0 + group_fixtures(targets@.take(i as int + 1), patch));
        assert(stack@ =~= stack0 + group_children(targets@.take(i as int + 1)));
        i = i + 1;
    }
    assert(targets@.take(i as int) =~= targets@);
}

/// The fixtures that `output_target` stands for in `project`.
pub fn get_fixtures(project: &Project, output_target: &OutputTarget) -> (r: Vec<QualifiedFixtureId>)
    ensures
        r@ == target_fixtures(*project, *output_target),
{
    match output_target {
        OutputTarget::Fixtures(ids) => {
            let mut out: Vec<QualifiedFixtureId> = Vec::new();
            push_in_patch(&mut out, ids, project.active_patch);
            assert(out@ =~= in_patch(ids@, project.active_patch));
            out
        },
        OutputTarget::Group(g) => {
            if *g == 0 {
                return get_all_qualified_ids(project);
            }
            let groups = &project.groups;
            let patch = project.active_patch;
            let mut visited: Vec<bool> = Vec::new();
            let mut k: usize = 0;
            while k < groups.len()
                invariant
                    0 <= k <= groups.len(),
                    visited@ =~= Seq::new(k as nat, |i: int| false),
                decreases groups.len() - k,
            {
                visited.push(false);
                k = k + 1;
            }
            let mut stack: Vec<u64> = vec![*g];
            let mut fuel: usize = groups.len();
            let mut out: Vec<QualifiedFixtureId> = Vec::new();
            let ghost whole = expand_groups(groups@, patch, stack@, visited@, fuel as nat);
            assert(stack@ =~= seq![*g]);
            assert(out@ + expand_groups(groups@, patch, stack@, visited@, fuel as nat) =~= whole);
            while stack.len() > 0
                invariant
                    visited@.len() == groups@.len(),
                    out@ + expand_groups(groups@, patch, stack@, visited@, fuel as nat) == whole,
                decreases fuel, stack.len(),
            {
                let gid = stack.pop().unwrap();
                proof {
                    lemma_first_index_valid(groups@, gid);
                }
                match find_index(groups, gid) {
                    Some(gi) => {
                        if !visited[gi] && fuel > 0 {
                            visited.set(gi, true);
                            expand_one(&mut out, &mut stack, &groups[gi].targets, patch);
                            fuel = fuel - 1;
                            assert(out@ + expand_groups(groups@, patch, stack@, visited@, fuel as nat) =~= whole);
                        }
                    },
                    None => {},
                }
            }
            assert(out@ =~= whole);
            out
        },
    }
}

} // verus!

verus! {

// ---------------------------------------------------------------- id order

/// `a` comes before `b` by output id, then fixture id.
pub open spec fn id_before(a: QualifiedFixtureId, b: QualifiedFixtureId) -> bool {
    a.output < b.output || (a.output == b.output && a.fixture < b.fixture)
}

/// `a` and `b` name the same output and fixture.
pub open spec fn same_key(a: QualifiedFixtureId, b: QualifiedFixtureId) -> bool {
    a.output == b.output && a.fixture == b.fixture
}

/// Ordered by output, then fixture, with no key twice.
pub open spec fn strictly_ordered(s: Seq<QualifiedFixtureId>) -> bool {
    forall|i: int, j: int| 0 <= i < j < s.len() ==> id_before(#[trigger] s[i], #[trigger] s[j])
}

/// Every id of `s` belongs to patch `patch`.
pub open spec fn all_in_patch(s: Seq<QualifiedFixtureId>, patch: u64) -> bool {
    forall|i: int| 0 <= i < s.len() ==> (#[trigger] s[i]).patch == patch
}

/// `x` put into its place in an ordered list, unless its key is there.
pub open spec fn insert_id(r: Seq<QualifiedFixtureId>, x: QualifiedFixtureId) -> Seq<QualifiedFixtureId>
    decreases r.len(),
{
    if r.len() == 0 {
        seq![x]
    } else if id_before(r.last(), x) {
        r.push(x)
    } else if same_key(r.last(), x) {
        r
    } else {
        insert_id(r.drop_last(), x).push(r.last())
    }
}

/// The ids of `s` ordered by output, then fixture, each key once.
pub open spec fn sort_ids(s: Seq<QualifiedFixtureId>) -> Seq<QualifiedFixtureId>
    decreases s.len(),
{
    if s.len() == 0 {
        Seq::empty()
    } else {
        insert_id(sort_ids(s.drop_last()), s.last())
    }
}

/// Every fixture (and WLED segment) of the active patch, ordered by output id,
/// then fixture id, each once.
pub open spec fn patch_fixture_ids(project: Project) -> Seq<QualifiedFixtureId> {
    sort_ids(all_fixture_ids(project))
}

proof fn lemma_insert_id(r: Seq<QualifiedFixtureId>, x: QualifiedFixtureId, patch: u64)
    requires
        strictly_ordered(r),
        all_in_patch(r, patch),
        x.patch == patch,
    ensures
        strictly_ordered(insert_id(r, x)),
        all_in_patch(insert_id(r, x), patch),
        forall|y: QualifiedFixtureId| #[trigger] insert_id(r, x).contains(y) <==> (r.contains(y) || y == x),
    decreases r.len(),
{
    if r.len() == 0 {
        assert(seq![x][0] == x);
    } else if id_before(r.last(), x) {
        let n = r.push(x);
        assert forall|i: int, j: int| 0 <= i < j < n.len() implies id_before(#[trigger] n[i], #[trigger] n[j]) by {
            if j == r.len() {
                if i < r.len() - 1 {
                    assert(id_before(r[i], r[r.len() - 1]));
                }
            } else {
                assert(n[i] == r[i] && n[j] == r[j]);
            }
        }
        assert forall|y: QualifiedFixtureId| n.contains(y) <==> (r.contains(y) || y == x) by {
            if n.contains(y) {
                let k = choose|k: int| 0 <= k < n.len() && n[k] == y;
                if k < r.len() {
                    assert(r[k] == y);
                }
            }
            if r.contains(y) {
                let k = choose|k: int| 0 <= k < r.len() && r[k] == y;
                assert(n[k] == y);
            }
            if y == x {
                assert(n[r.len() as int] == y);
            }
        }
    } else if same_key(r.last(), x) {
        assert(r.last() == x);
        assert(r[r.len() - 1] == x);
    } else {
        let p = r.drop_last();
        let l = r.last();
        assert(strictly_ordered(p)) by {
            assert forall|i: int, j: int| 0 <= i < j < p.len() implies id_before(#[trigger] p[i], #[trigger] p[j]) by {
                assert(p[i] == r[i] && p[j] == r[j]);
            }
        }
        lemma_insert_id(p, x, patch);
        let q = insert_id(p, x);
        let n = q.push(l);
        assert forall|i: int| 0 <= i < q.len() implies id_before(#[trigger] q[i], l) by {
            assert(q.contains(q[i]));
            if p.contains(q[i]) {
                let k = choose|k: int| 0 <= k < p.len() && p[k] == q[i];
                assert(id_before(r[k], r[r.len() - 1]));
            }
        }
        assert forall|i: int, j: int| 0 <= i < j < n.len() implies id_before(#[trigger] n[i], #[trigger] n[j]) by {
            if j == q.len() {
                assert(id_before(q[i], l));
            } else {
                assert(n[i] == q[i] && n[j] == q[j]);
            }
        }
        assert forall|i: int| 0 <= i < n.len() implies (#[trigger] n[i]).patch == patch by {
            if i < q.len() {
                assert(n[i] == q[i]);
            }
        }
        assert forall|y: QualifiedFixtureId| n.contains(y) <==> (r.contains(y) || y == x) by {
            if n.contains(y) {
                let k = choose|k: int| 0 <= k < n.len() && n[k] == y;
                if k < q.len() {
                    assert(q[k] == y);
                    assert(q.contains(y));
                    if p.contains(y) {
                        let m = choose|m: int| 0 <= m < p.len() && p[m] == y;
                        assert(r[m] == y);
                    }
                } else {
                    assert(r[r.len() - 1] == y);
                }
            }
            if r.contains(y) {
                let k = choose|k: int| 0 <= k < r.len() && r[k] == y;
                if k < r.len() - 1 {
                    assert(p[k] == y);
                    assert(p.contains(y));
                    assert(q.contains(y));
                    let m = choose|m: int| 0 <= m < q.len() && q[m] == y;
                    assert(n[m] == y);
                } else {
                    assert(n[q.len() as int] == y);
                }
            }
            if y == x {
                assert(q.contains(x));
                let m = choose|m: int| 0 <= m < q.len() && q[m] == x;
                assert(n[m] == x);
            }
        }
    }
}

/// Sorting keeps the ids of one patch in that patch, orders them, and keeps
/// exactly the ids it was given (a key listed twice comes once).
pub proof fn lemma_sort_ids(s: Seq<QualifiedFixtureId>, patch: u64)
    requires
        all_in_patch(s, patch),
    ensures
        strictly_ordered(sort_ids(s)),
        all_in_patch(sort_ids(s), patch),
        forall|y: QualifiedFixtureId| #[trigger] sort_ids(s).contains(y) <==> s.contains(y),
    decreases s.len(),
{
    if s.len() > 0 {
        let p = s.drop_last();
        assert(all_in_patch(p, patch)) by {
            assert forall|i: int| 0 <= i < p.len() implies (#[trigger] p[i]).patch == patch by {
                assert(p[i] == s[i]);
            }
        }
        lemma_sort_ids(p, patch);
        assert(s[s.len() - 1].patch == patch);
        lemma_insert_id(sort_ids(p), s.last(), patch);
        assert forall|y: QualifiedFixtureId| #[trigger] sort_ids(s).contains(y) <==> s.contains(y) by {
            if p.contains(y) {
                let k = choose|k: int| 0 <= k < p.len() && p[k] == y;
                assert(s[k] == y);
            }
            if s.contains(y) {
                let k = choose|k: int| 0 <= k < s.len() && s[k] == y;
                if k < s.len() - 1 {
                    assert(p[k] == y);
                }
            }
            if y == s.last() {
                assert(s[s.len() - 1] == y);
            }
        }
    }
}

/// The ids of any list of outputs belong to the patch they were listed for.
proof fn lemma_outputs_ids_in_patch(patch: u64, outs: Seq<Output>)
    ensures
        all_in_patch(outputs_fixture_ids(patch, outs), patch),
    decreases outs.len(),
{
    if outs.len() > 0 {
        lemma_outputs_ids_in_patch(patch, outs.drop_last());
        let a = outputs_fixture_ids(patch, outs.drop_last());
        let b = output_fixture_ids(patch, outs.last());
        assert forall|i: int| 0 <= i < (a + b).len() implies (#[trigger] (a + b)[i]).patch == patch by {
            if i < a.len() {
                assert((a + b)[i] == a[i]);
            } else {
                assert((a + b)[i] == b[i - a.len()]);
            }
        }
    }
}

/// The whole-patch list is ordered by output, then fixture, holds no id
/// twice, holds only ids of the active patch, and holds exactly the ids of
/// the fixtures and segments of the active patch's outputs.
pub proof fn law_patch_fixture_ids(project: Project)
    ensures
        strictly_ordered(patch_fixture_ids(project)),
        patch_fixture_ids(project).no_duplicates(),
        all_in_patch(patch_fixture_ids(project), project.active_patch),
        forall|y: QualifiedFixtureId| #[trigger] patch_fixture_ids(project).contains(y) <==> all_fixture_ids(project).contains(y),
{
    match first_index(project.patches@, project.active_patch) {
        Some(p) => lemma_outputs_ids_in_patch(project.active_patch, project.patches@[p].outputs@),
        None => {},
    }
    lemma_sort_ids(all_fixture_ids(project), project.active_patch);
    let r = patch_fixture_ids(project);
    assert forall|i: int, j: int| 0 <= i < r.len() && 0 <= j < r.len() && i != j implies r[i] != r[j] by {
        if i < j {
            assert(id_before(r[i], r[j]));
        } else {
            assert(id_before(r[j], r[i]));
        }
    }
}

fn insert_in_place(r: &mut Vec<QualifiedFixtureId>, x: QualifiedFixtureId)
    ensures
        final(r)@ == insert_id(old(r)@, x),
    decreases old(r)@.len(),
{
    if r.len() == 0 {
        r.push(x);
        return ;
    }
    let last = r[r.len() - 1];
    if last.output < x.output || (last.output == x.output && last.fixture < x.fixture) {
        r.push(x);
    } else if last.output == x.output && last.fixture == x.fixture {
    } else {
        let ghost before = r@;
        r.pop();
        assert(r@ =~= before.drop_last());
        insert_in_place(r, x);
        r.push(last);
    }
}

/// Every fixture (and WLED segment) of the active patch, ordered by output
/// id, then fixture id, each once.
pub fn get_all_qualified_ids(project: &Project) -> (r: Vec<QualifiedFixtureId>)
    ensures
        r@ == patch_fixture_ids(*project),
        forall|i: int, j: int| 0 <= i < j < r@.len() ==> id_before(#[trigger] r@[i], #[trigger] r@[j]),
        r@.no_duplicates(),
        forall|i: int| 0 <= i < r@.len() ==> (#[trigger] r@[i]).patch == project.active_patch,
        forall|y: QualifiedFixtureId| #[trigger] r@.contains(y) <==> all_fixture_ids(*project).contains(y),
{
    let listed = listed_fixture_ids(project);
    let mut out: Vec<QualifiedFixtureId> = Vec::new();
    let mut i: usize = 0;
    while i < listed.len()
        invariant
            0 <= i <= listed.len(),
            out@ == sort_ids(listed@.take(i as int)),
        decreases listed.len() - i,
    {
        assert(listed@.take(i as int + 1).drop_last() =~= listed@.take(i as int));
        insert_in_place(&mut out, listed[i]);
        i = i + 1;
    }
    assert(listed@.take(i as int) =~= listed@);
    proof {
        law_patch_fixture_ids(*project);
    }
    out
}

} // verus!
