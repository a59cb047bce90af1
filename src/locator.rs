use vstd::prelude::*;

use crate::error::HSLinkError;

verus! {

/// Volume label under which a probe in firmware-update mode shows its drive.
pub const BOOTLOADER_LABEL: &'static str = "CHERRYUF2";

/// One storage volume of the host: its drive path and, where it could be
/// read, its label.
pub struct Volume {
    pub drive: String,
    pub label: Option<String>,
}

/// The volume is the bootloader drive.
pub open spec fn is_bootloader(v: Volume) -> bool {
    match v.label {
        Some(l) => l@ == BOOTLOADER_LABEL@,
        None => false,
    }
}

/// The drive path of the first bootloader volume in `volumes`.
pub fn find_cherrydap_drive(volumes: &Vec<Volume>) -> (r: Option<String>)
    ensures
        match r {
            Some(d) => exists|i: int|
                0 <= i < volumes@.len() && is_bootloader(#[trigger] volumes@[i]) && d@
                    == volumes@[i].drive@ && forall|k: int|
                    0 <= k < i ==> !is_bootloader(#[trigger] volumes@[k]),
            None => forall|k: int| 0 <= k < volumes@.len() ==> !is_bootloader(#[trigger] volumes@[k]),
        },
{
    let marker: String = BOOTLOADER_LABEL.to_owned();
    let mut i: usize = 0;
    while i < volumes.len()
        invariant
            i <= volumes@.len(),
            marker@ == BOOTLOADER_LABEL@,
            forall|k: int| 0 <= k < i ==> !is_bootloader(#[trigger] volumes@[k]),
        decreases volumes.len() - i,
    {
        let v = &volumes[i];
        match &v.label {
            Some(l) => {
                if l.eq(&marker) {
                    return Some(v.drive.clone());
                }
            },
            None => {},
        }
        i = i + 1;
    }
    None
}

/// Locates the bootloader drive among the host's volumes, or reports
/// `DeviceNotFound`.
pub fn find_bl(volumes: &Vec<Volume>) -> (r: Result<String, HSLinkError>)
    ensures
        match r {
            Ok(d) => exists|i: int|
                0 <= i < volumes@.len() && is_bootloader(#[trigger] volumes@[i]) && d@
                    == volumes@[i].drive@ && forall|k: int|
                    0 <= k < i ==> !is_bootloader(#[trigger] volumes@[k]),
            Err(e) => e == HSLinkError::DeviceNotFound && forall|k: int|
                0 <= k < volumes@.len() ==> !is_bootloader(#[trigger] volumes@[k]),
        },
{
    match find_cherrydap_drive(volumes) {
        Some(drive) => Ok(drive),
        None => Err(HSLinkError::DeviceNotFound),
    }
}

/// Splits `s` at its zero units: the segments closed by a zero so far,
/// empty ones left out, and the segment still open at the end.
pub open spec fn split_at_nuls(s: Seq<u16>) -> (Seq<Seq<u16>>, Seq<u16>)
    decreases s.len(),
{
    if s.len() == 0 {
        (Seq::empty(), Seq::empty())
    } else {
        let (done, open) = split_at_nuls(s.drop_last());
        if s.last() == 0 {
            (if open.len() > 0 { done.push(open) } else { done }, Seq::empty())
        } else {
            (done, open.push(s.last()))
        }
    }
}

/// The non-empty segments between the zero units of `s`, in order.
pub open spec fn nul_segments(s: Seq<u16>) -> Seq<Seq<u16>> {
    let (done, open) = split_at_nuls(s);
    if open.len() > 0 {
        done.push(open)
    } else {
        done
    }
}

/// The views of a sequence of vectors.
pub open spec fn unit_seqs(v: Seq<Vec<u16>>) -> Seq<Seq<u16>> {
    v.map_values(|w: Vec<u16>| w@)
}

/// Splits a NUL-separated list of UTF-16 strings, as the host lists its
/// drives, into its non-empty entries.
pub fn split_nul_list(units: &Vec<u16>) -> (r: Vec<Vec<u16>>)
    ensures
        unit_seqs(r@) == nul_segments(units@),
{
    let mut done: Vec<Vec<u16>> = Vec::new();
    let mut open: Vec<u16> = Vec::new();
    let mut i: usize = 0;
    while i < units.len()
        invariant
            i <= units@.len(),
            (unit_seqs(done@), open@) == split_at_nuls(units@.subrange(0, i as int)),
        decreases units.len() - i,
    {
        proof {
            assert(units@.subrange(0, i + 1).drop_last() =~= units@.subrange(0, i as int));
        }
        if units[i] == 0 {
            if open.len() > 0 {
                let entry = open;
                open = Vec::new();
                done.push(entry);
                assert(unit_seqs(done@) =~= split_at_nuls(units@.subrange(0, i + 1)).0);
            }
        } else {
            open.push(units[i]);
        }
        i = i + 1;
    }
    assert(units@.subrange(0, i as int) =~= units@);
    if open.len() > 0 {
        done.push(open);
        assert(unit_seqs(done@) =~= nul_segments(units@));
    }
    done
}

/// `s` without its trailing zero units.
pub open spec fn trim_nuls(s: Seq<u16>) -> Seq<u16>
    decreases s.len(),
{
    if s.len() > 0 && s.last() == 0 {
        trim_nuls(s.drop_last())
    } else {
        s
    }
}

/// A volume label as the host hands it back, in a buffer padded with zero
/// units, without that padding.
pub fn trim_label(units: &Vec<u16>) -> (r: Vec<u16>)
    ensures
        r@ == trim_nuls(units@),
{
    let mut end: usize = units.len();
    assert(units@.subrange(0, units@.len() as int) =~= units@);
    while end > 0 && units[end - 1] == 0
        invariant
            end <= units@.len(),
            trim_nuls(units@.subrange(0, end as int)) == trim_nuls(units@),
        decreases end,
    {
        proof {
            assert(units@.subrange(0, end as int).drop_last() =~= units@.subrange(
                0,
                end - 1,
            ));
        }
        end = end - 1;
    }
    let mut r: Vec<u16> = Vec::with_capacity(end);
    let mut i: usize = 0;
    while i < end
        invariant
            i <= end <= units@.len(),
            r@ == units@.subrange(0, i as int),
        decreases end - i,
    {
        r.push(units[i]);
        i = i + 1;
        assert(r@ =~= units@.subrange(0, i as int));
    }
    r
}

} // verus!
