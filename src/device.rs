use vstd::prelude::*;

verus! {

/// How bytes reach a target: as a file inside a mounted directory, or onto
/// the raw device node itself.
#[derive(Clone, Copy, Debug, PartialEq, Eq, Structural)]
pub enum TargetKind {
    MountPoint,
    RawDevice,
}

/// One storage device as the operating system reported it, before filtering.
/// Metadata that could not be read is `None`.
#[derive(Clone, Debug)]
pub struct ProbedDevice {
    pub identifier: String,
    pub label: Option<String>,
    pub capacity_bytes: Option<u64>,
    pub removable: bool,
    pub kind: TargetKind,
}

/// A candidate target offered to the user.
#[derive(Clone, Debug)]
pub struct Device {
    pub identifier: String,
    pub display_label: String,
    pub capacity_bytes: Option<u64>,
    pub removable: bool,
    pub kind: TargetKind,
}

/// The label shown for a device whose own label is missing or blank.
pub const UNNAMED_LABEL: &'static str = "Unnamed device";

/// A probed device may be offered only if it is removable and has an identifier.
pub open spec fn eligible(p: ProbedDevice) -> bool {
    p.removable && p.identifier@.len() > 0
}

pub open spec fn has_identifier(ds: Seq<ProbedDevice>, id: Seq<char>) -> bool {
    exists|i: int| 0 <= i < ds.len() && (#[trigger] ds[i]).identifier@ == id
}

/// The probed devices that are offered, in enumeration order: the eligible
/// ones, each identifier kept at its first occurrence only.
pub open spec fn offered(ps: Seq<ProbedDevice>) -> Seq<ProbedDevice>
    decreases ps.len(),
{
    if ps.len() == 0 {
        Seq::empty()
    } else {
        let rest = offered(ps.drop_last());
        let p = ps.last();
        if eligible(p) && !has_identifier(rest, p.identifier@) {
            rest.push(p)
        } else {
            rest
        }
    }
}

/// The label shown for a probed device.
pub open spec fn label_for(p: ProbedDevice) -> Seq<char> {
    match p.label {
        Some(l) => if l@.len() > 0 { l@ } else { UNNAMED_LABEL@ },
        None => UNNAMED_LABEL@,
    }
}

/// `d` is what the listing shows for the probed device `p`.
pub open spec fn shows(d: Device, p: ProbedDevice) -> bool {
    &&& d.identifier@ == p.identifier@
    &&& d.display_label@ == label_for(p)
    &&& d.capacity_bytes == p.capacity_bytes
    &&& d.removable == p.removable
    &&& d.kind == p.kind
}

/// Every offered device is removable, has a non-empty identifier, and no
/// identifier is offered twice.
pub proof fn lemma_offered_well_formed(ps: Seq<ProbedDevice>)
    ensures
        forall|i: int| 0 <= i < offered(ps).len() ==> eligible(#[trigger] offered(ps)[i]),
        forall|i: int, j: int|
            0 <= i < j < offered(ps).len() ==> (#[trigger] offered(ps)[i]).identifier@
                != (#[trigger] offered(ps)[j]).identifier@,
    decreases ps.len(),
{
    if ps.len() > 0 {
        lemma_offered_well_formed(ps.drop_last());
        let rest = offered(ps.drop_last());
        let p = ps.last();
        if eligible(p) && !has_identifier(rest, p.identifier@) {
            assert forall|i: int, j: int|
                0 <= i < j < offered(ps).len() implies (#[trigger] offered(ps)[i]).identifier@
                != (#[trigger] offered(ps)[j]).identifier@ by {
                if j == rest.len() {
                    assert(rest[i] == offered(ps)[i]);
                } else {
                    assert(rest[i] == offered(ps)[i]);
                    assert(rest[j] == offered(ps)[j]);
                }
            }
        }
    }
}

fn contains_identifier(devices: &Vec<Device>, id: &String) -> (r: bool)
    ensures
        r == exists|i: int|
            0 <= i < devices@.len() && (#[trigger] devices@[i]).identifier@ == id@,
{
    let mut k: usize = 0;
    while k < devices.len()
        invariant
            k <= devices@.len(),
            forall|i: int| 0 <= i < k ==> (#[trigger] devices@[i]).identifier@ != id@,
        decreases devices@.len() - k,
    {
        if devices[k].identifier == *id {
            return true;
        }
        k = k + 1;
    }
    false
}

fn display_label(p: &ProbedDevice) -> (r: String)
    ensures
        r@ == label_for(*p),
{
    match &p.label {
        Some(l) => {
            if l.as_str().is_empty() {
                UNNAMED_LABEL.to_owned()
            } else {
                l.clone()
            }
        },
        None => UNNAMED_LABEL.to_owned(),
    }
}

/// Turns what the operating system reported into the list offered to the
/// user: only removable devices with an identifier, each identifier once,
/// in enumeration order, with a placeholder for a missing label. An empty
/// scan gives an empty list.
pub fn list_devices(probed: &Vec<ProbedDevice>) -> (r: Vec<Device>)
    ensures
        r@.len() == offered(probed@).len(),
        forall|i: int| 0 <= i < r@.len() ==> shows(#[trigger] r@[i], offered(probed@)[i]),
        forall|i: int| 0 <= i < r@.len() ==> (#[trigger] r@[i]).removable
            && r@[i].identifier@.len() > 0,
        forall|i: int, j: int|
            0 <= i < j < r@.len() ==> (#[trigger] r@[i]).identifier@
                != (#[trigger] r@[j]).identifier@,
{
    let mut out: Vec<Device> = Vec::new();
    let mut k: usize = 0;
    while k < probed.len()
        invariant
            k <= probed@.len(),
            out@.len() == offered(probed@.subrange(0, k as int)).len(),
            forall|i: int|
                0 <= i < out@.len() ==> shows(
                    #[trigger] out@[i],
                    offered(probed@.subrange(0, k as int))[i],
                ),
        decreases probed@.len() - k,
    {
        let ghost before = probed@.subrange(0, k as int);
        let ghost after = probed@.subrange(0, k + 1);
        assert(after.drop_last() =~= before);
        let p = &probed[k];
        if p.removable && !p.identifier.as_str().is_empty() {
            let seen = contains_identifier(&out, &p.identifier);
            proof {
                let rest = offered(before);
                if seen {
                    let i = choose|i: int|
                        0 <= i < out@.len() && (#[trigger] out@[i]).identifier@ == p.identifier@;
                    assert(rest[i].identifier@ == p.identifier@);
                } else {
                    assert forall|i: int| 0 <= i < rest.len() implies (#[trigger] rest[i]).identifier@
                        != p.identifier@ by {
                        assert(shows(out@[i], rest[i]));
                    }
                }
            }
            if !seen {
                let d = Device {
                    identifier: p.identifier.clone(),
                    display_label: display_label(p),
                    capacity_bytes: p.capacity_bytes,
                    removable: p.removable,
                    kind: p.kind,
                };
                out.push(d);
            }
        }
        k = k + 1;
    }
    assert(probed@.subrange(0, probed@.len() as int) =~= probed@);
    proof {
        lemma_offered_well_formed(probed@);
        assert forall|i: int| 0 <= i < out@.len() implies (#[trigger] out@[i]).removable
            && out@[i].identifier@.len() > 0 by {
            assert(shows(out@[i], offered(probed@)[i]));
            assert(eligible(offered(probed@)[i]));
        }
        assert forall|i: int, j: int|
            0 <= i < j < out@.len() implies (#[trigger] out@[i]).identifier@
            != (#[trigger] out@[j]).identifier@ by {
            assert(shows(out@[i], offered(probed@)[i]));
            assert(shows(out@[j], offered(probed@)[j]));
        }
    }
    out
}

} // verus!
