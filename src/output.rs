//! Decisions of the output driver: which loops run with which configuration,
//! how fast they tick, and how a frame is framed for its transport.

use vstd::prelude::*;

use crate::lookup::{find_index, first_index, lemma_first_index_valid};
use crate::model::{Output, OutputKind, Project};

verus! {

/// Frames per second of a serial DMX output.
pub const SERIAL_FPS: u32 = 30;

/// Frames per second of an sACN output.
pub const SACN_FPS: u32 = 100;

/// Frames per second of a WLED output.
pub const WLED_FPS: u32 = 30;

/// How a running output loop sends its frames.
#[derive(Clone, Debug)]
pub enum OutputType {
    Serial,
    Sacn { universe: u16, ip_address: String },
    Wled { ip_address: String },
}

/// Two loop configurations are the same: same kind, universe and address.
pub open spec fn same_type(a: OutputType, b: OutputType) -> bool {
    match (a, b) {
        (OutputType::Serial, OutputType::Serial) => true,
        (OutputType::Sacn { universe: u1, ip_address: a1 }, OutputType::Sacn { universe: u2, ip_address: a2 }) => u1
            == u2 && a1@ == a2@,
        (OutputType::Wled { ip_address: a1 }, OutputType::Wled { ip_address: a2 }) => a1@ == a2@,
        _ => false,
    }
}

impl PartialEq for OutputType {
    fn eq(&self, other: &OutputType) -> (r: bool) {
        match (self, other) {
            (OutputType::Serial, OutputType::Serial) => true,
            (OutputType::Sacn { universe: u1, ip_address: a1 }, OutputType::Sacn { universe: u2, ip_address: a2 }) => *u1
                == *u2 && *a1 == *a2,
            (OutputType::Wled { ip_address: a1 }, OutputType::Wled { ip_address: a2 }) => *a1 == *a2,
            _ => false,
        }
    }
}

impl vstd::std_specs::cmp::PartialEqSpecImpl for OutputType {
    open spec fn obeys_eq_spec() -> bool {
        true
    }

    open spec fn eq_spec(&self, other: &OutputType) -> bool {
        same_type(*self, *other)
    }
}

/// The loop configuration an output calls for: sACN universes are kept to
/// 16 bits; an output that drives nothing calls for none.
pub open spec fn type_of_output(o: Output) -> Option<OutputType> {
    match o.output {
        Some(OutputKind::SerialDmx { fixtures }) => Some(OutputType::Serial),
        Some(OutputKind::SacnDmx { universe, ip_address, fixtures }) => Some(
            OutputType::Sacn { universe: (universe % 0x10000) as u16, ip_address },
        ),
        Some(OutputKind::Wled { ip_address, segments }) => Some(OutputType::Wled { ip_address }),
        None => None,
    }
}

/// The loops a list of outputs calls for, in order.
pub open spec fn wanted_loops(outs: Seq<Output>) -> Seq<(u64, OutputType)>
    decreases outs.len(),
{
    if outs.len() == 0 {
        Seq::empty()
    } else {
        wanted_loops(outs.drop_last()) + match type_of_output(outs.last()) {
            Some(t) => seq![(outs.last().id, t)],
            None => Seq::empty(),
        }
    }
}

/// Two lists of loops that agree entry by entry.
pub open spec fn same_loops(a: Seq<(u64, OutputType)>, b: Seq<(u64, OutputType)>) -> bool {
    &&& a.len() == b.len()
    &&& forall|i: int| 0 <= i < a.len() ==> a[i].0 == b[i].0 && same_type(a[i].1, b[i].1)
}

fn output_type_of(o: &Output) -> (r: Option<OutputType>)
    ensures
        match (r, type_of_output(*o)) {
            (Some(a), Some(b)) => same_type(a, b),
            (None, None) => true,
            _ => false,
        },
{
    match &o.output {
        Some(OutputKind::SerialDmx { .. }) => Some(OutputType::Serial),
        Some(OutputKind::SacnDmx { universe, ip_address, .. }) => Some(
            OutputType::Sacn { universe: (*universe % 0x10000) as u16, ip_address: ip_address.clone() },
        ),
        Some(OutputKind::Wled { ip_address, .. }) => Some(OutputType::Wled { ip_address: ip_address.clone() }),
        None => None,
    }
}

/// The loops that the active patch calls for, one per output that drives
/// something; `None` where the active patch is missing.
pub fn desired_outputs(project: &Project) -> (r: Option<Vec<(u64, OutputType)>>)
    ensures
        match first_index(project.patches@, project.active_patch) {
            None => r is None,
            Some(p) => r matches Some(v) && same_loops(v@, wanted_loops(project.patches@[p].outputs@)),
        },
{
    proof {
        lemma_first_index_valid(project.patches@, project.active_patch);
    }
    let p = match find_index(&project.patches, project.active_patch) {
        Some(p) => p,
        None => return None,
    };
    let outs = &project.patches[p].outputs;
    let mut v: Vec<(u64, OutputType)> = Vec::new();
    let mut i: usize = 0;
    while i < outs.len()
        invariant
            0 <= i <= outs.len(),
            same_loops(v@, wanted_loops(outs@.take(i as int))),
        decreases outs.len() - i,
    {
        assert(outs@.take(i as int + 1).drop_last() =~= outs@.take(i as int));
        match output_type_of(&outs[i]) {
            Some(t) => v.push((outs[i].id, t)),
            None => {},
        }
        assert(same_loops(v@, wanted_loops(outs@.take(i as int + 1))));
        i = i + 1;
    }
    assert(outs@.take(i as int) =~= outs@);
    Some(v)
}

/// The configuration of the first loop with id `id`.
pub open spec fn loop_type(loops: Seq<(u64, OutputType)>, id: u64) -> Option<OutputType>
    decreases loops.len(),
{
    if loops.len() == 0 {
        None
    } else {
        match loop_type(loops.drop_last(), id) {
            Some(t) => Some(t),
            None => if loops.last().0 == id {
                Some(loops.last().1)
            } else {
                None
            },
        }
    }
}

/// Whether loop `(id, t)` of one list is matched, same id and same
/// configuration, in the other.
pub open spec fn kept(other: Seq<(u64, OutputType)>, id: u64, t: OutputType) -> bool {
    match loop_type(other, id) {
        Some(u) => same_type(t, u),
        None => false,
    }
}

/// The ids of the running loops to stop: gone, or changed.
pub open spec fn loops_to_stop(current: Seq<(u64, OutputType)>, desired: Seq<(u64, OutputType)>) -> Seq<u64>
    decreases current.len(),
{
    if current.len() == 0 {
        Seq::empty()
    } else {
        let (id, t) = current.last();
        loops_to_stop(current.drop_last(), desired) + if kept(desired, id, t) {
            Seq::empty()
        } else {
            seq![id]
        }
    }
}

/// The desired loops to start: new, or changed.
pub open spec fn loops_to_start(current: Seq<(u64, OutputType)>, desired: Seq<(u64, OutputType)>) -> Seq<(u64, OutputType)>
    decreases desired.len(),
{
    if desired.len() == 0 {
        Seq::empty()
    } else {
        let (id, t) = desired.last();
        loops_to_start(current, desired.drop_last()) + if kept(current, id, t) {
            Seq::empty()
        } else {
            seq![(id, t)]
        }
    }
}

fn find_loop<'b>(loops: &'b Vec<(u64, OutputType)>, id: u64) -> (r: Option<&'b OutputType>)
    ensures
        match (r, loop_type(loops@, id)) {
            (Some(a), Some(b)) => *a == b,
            (None, None) => true,
            _ => false,
        },
{
    let mut i: usize = 0;
    while i < loops.len()
        invariant
            0 <= i <= loops.len(),
            loop_type(loops@.take(i as int), id) is None,
        decreases loops.len() - i,
    {
        assert(loops@.take(i as int + 1).drop_last() =~= loops@.take(i as int));
        if loops[i].0 == id {
            proof {
                lemma_loop_type_prefix(loops@, i as int + 1, id);
            }
            return Some(&loops[i].1);
        }
        i = i + 1;
    }
    assert(loops@.take(i as int) =~= loops@);
    None
}

proof fn lemma_loop_type_prefix(s: Seq<(u64, OutputType)>, n: int, id: u64)
    requires
        0 <= n <= s.len(),
        loop_type(s.take(n), id) is Some,
    ensures
        loop_type(s, id) == loop_type(s.take(n), id),
    decreases s.len() - n,
{
    if n < s.len() {
        assert(s.take(n + 1).drop_last() =~= s.take(n));
        lemma_loop_type_prefix(s, n + 1, id);
    } else {
        assert(s.take(n) =~= s);
    }
}

fn is_kept(other: &Vec<(u64, OutputType)>, id: u64, t: &OutputType) -> (r: bool)
    ensures
        r == kept(other@, id, *t),
{
    match find_loop(other, id) {
        Some(u) => *t == *u,
        None => false,
    }
}

/// What a rebuild does to the running loops: the ids of those to stop (gone
/// from the desired set, or with another configuration), and the desired
/// loops to start (new, or with another configuration). Loops whose
/// configuration is unchanged keep running.
pub fn plan_rebuild(current: &Vec<(u64, OutputType)>, desired: &Vec<(u64, OutputType)>) -> (r: (
    Vec<u64>,
    Vec<(u64, OutputType)>,
))
    ensures
        r.0@ == loops_to_stop(current@, desired@),
        same_loops(r.1@, loops_to_start(current@, desired@)),
{
    let mut to_stop: Vec<u64> = Vec::new();
    let mut i: usize = 0;
    while i < current.len()
        invariant
            0 <= i <= current.len(),
            to_stop@ == loops_to_stop(current@.take(i as int), desired@),
        decreases current.len() - i,
    {
        assert(current@.take(i as int + 1).drop_last() =~= current@.take(i as int));
        let entry = &current[i];
        if !is_kept(desired, entry.0, &entry.1) {
            to_stop.push(entry.0);
        }
        assert(to_stop@ =~= loops_to_stop(current@.take(i as int + 1), desired@));
        i = i + 1;
    }
    assert(current@.take(i as int) =~= current@);
    let mut to_start: Vec<(u64, OutputType)> = Vec::new();
    let mut j: usize = 0;
    while j < desired.len()
        invariant
            0 <= j <= desired.len(),
            same_loops(to_start@, loops_to_start(current@, desired@.take(j as int))),
        decreases desired.len() - j,
    {
        assert(desired@.take(j as int + 1).drop_last() =~= desired@.take(j as int));
        let entry = &desired[j];
        if !is_kept(current, entry.0, &entry.1) {
            let t = match &entry.1 {
                OutputType::Serial => OutputType::Serial,
                OutputType::Sacn { universe, ip_address } => OutputType::Sacn { universe: *universe, ip_address: ip_address.clone() },
                OutputType::Wled { ip_address } => OutputType::Wled { ip_address: ip_address.clone() },
            };
            to_start.push((entry.0, t));
        }
        assert(same_loops(to_start@, loops_to_start(current@, desired@.take(j as int + 1))));
        j = j + 1;
    }
    assert(desired@.take(j as int) =~= desired@);
    (to_stop, to_start)
}

/// The frame rate of an output loop: serial 30, sACN 100, WLED 30.
pub fn target_fps(t: &OutputType) -> (r: u32)
    ensures
        r == match *t {
            OutputType::Serial => SERIAL_FPS,
            OutputType::Sacn { .. } => SACN_FPS,
            OutputType::Wled { .. } => WLED_FPS,
        },
{
    match t {
        OutputType::Serial => SERIAL_FPS,
        OutputType::Sacn { .. } => SACN_FPS,
        OutputType::Wled { .. } => WLED_FPS,
    }
}

/// How long a loop sleeps after a frame that took `elapsed_ms`:
/// `max(0, 1000/fps − elapsed)`.
pub fn sleep_ms(elapsed_ms: u64, fps: u32) -> (r: u64)
    requires
        fps > 0,
    ensures
        r == if elapsed_ms < 1000int / fps as int {
            (1000int / fps as int - elapsed_ms) as u64
        } else {
            0
        },
{
    let budget: u64 = (1000 / fps) as u64;
    if elapsed_ms < budget {
        budget - elapsed_ms
    } else {
        0
    }
}

/// The number of the next frame, wrapping at `u32::MAX`.
pub fn next_frame(frame: u32) -> (r: u32)
    ensures
        r == if frame == u32::MAX {
            0
        } else {
            (frame + 1) as u32
        },
{
    if frame == u32::MAX {
        0
    } else {
        frame + 1
    }
}

/// An sACN payload: the start code 0 before the universe.
pub fn sacn_payload(data: &Vec<u8>) -> (r: Vec<u8>)
    ensures
        r@ == seq![0u8] + data@,
{
    let mut out: Vec<u8> = Vec::new();
    out.push(0);
    let mut i: usize = 0;
    while i < data.len()
        invariant
            0 <= i <= data.len(),
            out@ == seq![0u8] + data@.take(i as int),
        decreases data.len() - i,
    {
        out.push(data[i]);
        assert(data@.take(i as int + 1) =~= data@.take(i as int).push(data@[i as int]));
        i = i + 1;
    }
    assert(data@.take(i as int) =~= data@);
    out
}

/// A serial frame: exactly 512 slots, the data cut or padded with zeros.
pub fn serial_frame(data: &Vec<u8>) -> (r: Vec<u8>)
    ensures
        r@.len() == 512,
        forall|i: int| 0 <= i < 512 ==> r@[i] == if i < data@.len() {
            data@[i]
        } else {
            0u8
        },
{
    let mut out: Vec<u8> = Vec::new();
    let mut i: usize = 0;
    while i < 512
        invariant
            0 <= i <= 512,
            out@.len() == i,
            forall|j: int| 0 <= j < i ==> out@[j] == if j < data@.len() {
                data@[j]
            } else {
                0u8
            },
        decreases 512 - i,
    {
        if i < data.len() {
            out.push(data[i]);
        } else {
            out.push(0);
        }
        i = i + 1;
    }
    out
}

} // verus!
