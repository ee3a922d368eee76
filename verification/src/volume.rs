//! Provisioning volumes for claims: the size a claim requests, the volume
//! made for it, and its binding and release.
use vstd::prelude::*;
use crate::{AccessMode, PersistentVolumeClaim, Volume, VolumeState, VolumeType};
use crate::labels::{get_label, label_lookup, labels_view};
use crate::storage::{updated_one, FileStorageEngine};
use crate::text::{
    append_str, chars_of, clone_opt_string, parse_decimal, parse_unsigned, string_of, trim_chars, trimmed,
    uuid_chars, uuid_text, NumberParse,
};

verus! {

/// `s` with every trailing copy of `suffix` removed, as
/// `str::trim_end_matches` does.
pub open spec fn strip_suffixes(s: Seq<char>, suffix: Seq<char>) -> Seq<char>
    decreases s.len(),
{
    if suffix.len() > 0 && s.len() >= suffix.len() && s.subrange(s.len() - suffix.len(), s.len() as int) == suffix {
        strip_suffixes(s.subrange(0, s.len() - suffix.len()), suffix)
    } else {
        s
    }
}

/// Whether `s` ends with `suffix`.
pub open spec fn ends_with(s: Seq<char>, suffix: Seq<char>) -> bool {
    s.len() >= suffix.len() && s.subrange(s.len() - suffix.len(), s.len() as int) == suffix
}

/// The unit of a storage size: `Gi`, `Mi` or `Ki` (binary multiples) or
/// plain bytes.
pub open spec fn size_unit(t: Seq<char>) -> (Seq<char>, nat) {
    if ends_with(t, "Gi"@) {
        ("Gi"@, 1073741824)
    } else if ends_with(t, "Mi"@) {
        ("Mi"@, 1048576)
    } else if ends_with(t, "Ki"@) {
        ("Ki"@, 1024)
    } else {
        (Seq::empty(), 1)
    }
}

/// The message of a number that does not parse, as `u64::from_str` words
/// it.
pub open spec fn parse_error_text(p: NumberParse) -> Seq<char> {
    match p {
        NumberParse::Empty => "cannot parse integer from empty string"@,
        NumberParse::Overflow => "number too large to fit in target type"@,
        _ => "invalid digit found in string"@,
    }
}

/// What a storage size reads as: the trimmed text, its unit suffixes
/// stripped, as a number times the unit; or the parse error (prefixed with
/// `Invalid size format: ` when there is no unit).
pub open spec fn storage_size(s: Seq<char>) -> Result<nat, Seq<char>> {
    let t = trimmed(s);
    let (unit, mult) = size_unit(t);
    let digits = if unit.len() > 0 { strip_suffixes(t, unit) } else { t };
    match parse_unsigned(digits, u64::MAX as nat) {
        NumberParse::Value(n) => Ok((n as nat) * mult),
        other => Err(if unit.len() > 0 { parse_error_text(other) } else { "Invalid size format: "@ + parse_error_text(other) }),
    }
}

/// Errors of provisioning.
pub open spec fn no_size_text() -> Seq<char> {
    "No storage size specified in claim"@
}

fn ends_with_exec(s: &Vec<char>, suffix: &str) -> (b: bool)
    ensures
        b == ends_with(s@, suffix@),
{
    let x = chars_of(suffix);
    if s.len() < x.len() {
        return false;
    }
    let off = s.len() - x.len();
    let mut i: usize = 0;
    while i < x.len()
        invariant
            i <= x@.len(),
            x@ == suffix@,
            s@.len() <= usize::MAX,
            off + x@.len() == s@.len(),
            forall|k: int| 0 <= k < i ==> s@[off + k] == x@[k],
        decreases x.len() - i,
    {
        if s[off + i] != x[i] {
            assert(s@.subrange(off as int, s@.len() as int)[i as int] != x@[i as int]);
            return false;
        }
        i += 1;
    }
    assert(s@.subrange(off as int, s@.len() as int) =~= x@);
    true
}

fn strip_suffixes_exec(s: &Vec<char>, suffix: &str) -> (r: Vec<char>)
    requires
        suffix@.len() > 0,
    ensures
        r@ == strip_suffixes(s@, suffix@),
{
    let n = chars_of(suffix).len();
    let mut cur: Vec<char> = s.clone();
    assert(cur@ == s@);
    while ends_with_exec(&cur, suffix)
        invariant
            n == suffix@.len(),
            n > 0,
            strip_suffixes(cur@, suffix@) == strip_suffixes(s@, suffix@),
        decreases cur@.len(),
    {
        let k = cur.len() - n;
        cur.truncate(k);
    }
    cur
}

fn parse_error_string(p: NumberParse) -> (s: String)
    ensures
        s@ == parse_error_text(p),
{
    match p {
        NumberParse::Empty => "cannot parse integer from empty string".to_owned(),
        NumberParse::Overflow => "number too large to fit in target type".to_owned(),
        _ => "invalid digit found in string".to_owned(),
    }
}

/// Provisions and binds volumes over a storage engine.
pub struct VolumeManager;

impl VolumeManager {
    /// Reads a storage size such as `10Gi`, `512Mi`, `64Ki` or `4096`.
    pub fn parse_storage_size(size_str: &str) -> (r: Result<u64, String>)
        requires
            storage_size(size_str@) matches Ok(n) ==> n <= u64::MAX,
        ensures
            match storage_size(size_str@) {
                Ok(n) => r == Ok::<u64, String>(n as u64),
                Err(t) => r matches Err(e) && e@ == t,
            },
    {
        let all = chars_of(size_str);
        let t = trim_chars(all.as_slice());
        proof {
            reveal_strlit("Gi");
            reveal_strlit("Mi");
            reveal_strlit("Ki");
        }
        let (unit, mult, has_unit): (&str, u64, bool) = if ends_with_exec(&t, "Gi") {
            ("Gi", 1073741824, true)
        } else if ends_with_exec(&t, "Mi") {
            ("Mi", 1048576, true)
        } else if ends_with_exec(&t, "Ki") {
            ("Ki", 1024, true)
        } else {
            ("", 1, false)
        };
        assert(has_unit == (size_unit(t@).0.len() > 0));
        assert(has_unit ==> unit@ == size_unit(t@).0 && unit@.len() > 0);
        assert(mult == size_unit(t@).1);
        let digits = if has_unit { strip_suffixes_exec(&t, unit) } else { t };
        match parse_decimal(digits.as_slice(), u64::MAX) {
            NumberParse::Value(n) => {
                proof {
                    assert(n * mult <= u64::MAX);
                }
                Ok(n * mult)
            },
            other => {
                let msg = parse_error_string(other);
                if has_unit {
                    Err(msg)
                } else {
                    let mut e = "Invalid size format: ".to_owned();
                    append_str(&mut e, msg.as_str());
                    Err(e)
                }
            },
        }
    }
    /// The volume a claim asks for, before its file exists: named after
    /// the claim, persistent, of the size its `storage` request reads as,
    /// in its storage class (`default` without one), with its access modes
    /// and a reference to it.  The caller creates the file and records the
    /// volume.  A claim without a size, or with one that does not read, is
    /// refused.
    pub fn provision_volume(claim: &PersistentVolumeClaim) -> (r: Result<Volume, String>)
        requires
            label_lookup(labels_view(claim.spec.resources.requests@), "storage"@) matches Some(t) ==> (storage_size(t) matches Ok(n)
                ==> n <= u64::MAX),
        ensures
            match label_lookup(labels_view(claim.spec.resources.requests@), "storage"@) {
                None => r matches Err(e) && e@ == no_size_text(),
                Some(t) => match storage_size(t) {
                    Err(m) => r matches Err(e) && e@ == m,
                    Ok(n) => r matches Ok(v) && {
                        &&& v.name@ == claim.name@
                        &&& v.volume_type == VolumeType::Persistent
                        &&& v.size_bytes == n
                        &&& v.storage_class@ == match claim.spec.storage_class {
                            Some(c) => c@,
                            None => "default"@,
                        }
                        &&& v.state == VolumeState::Provisioning
                        &&& v.access_modes@ == claim.spec.access_modes@
                        &&& v.claim_ref matches Some(c) && c@ == uuid_text(claim.id)
                        &&& v.labels@.len() == 0
                        &&& v.attached_nodes@.len() == 0
                    },
                },
            },
    {
        let key = "storage".to_owned();
        let size_str = match get_label(&claim.spec.resources.requests, &key) {
            Some(s) => s,
            None => return Err("No storage size specified in claim".to_owned()),
        };
        let size_bytes = match Self::parse_storage_size(size_str.as_str()) {
            Ok(n) => n,
            Err(e) => return Err(e),
        };
        let storage_class = match &claim.spec.storage_class {
            Some(c) => c.clone(),
            None => "default".to_owned(),
        };
        let mut volume = Volume::new(claim.name.clone(), VolumeType::Persistent, size_bytes, storage_class);
        volume.access_modes = crate::galleon::copy_modes(&claim.spec.access_modes);
        volume.claim_ref = Some(string_of(uuid_chars(claim.id).as_slice()));
        Ok(volume)
    }

    /// Marks a volume bound to its claim.
    pub fn bind_volume(engine: &mut FileStorageEngine, volume_id: u128, now: i64)
        requires
            old(engine).wf(),
        ensures
            final(engine).wf(),
            updated_one(old(engine).volumes_view(), final(engine).volumes_view(), volume_id,
                |v: Volume| Volume { state: VolumeState::Bound, updated_at: now, ..v }),
    {
        engine.update_volume_state(volume_id, VolumeState::Bound, now);
    }

    /// Marks a volume released by its claim.
    pub fn release_volume(engine: &mut FileStorageEngine, volume_id: u128, now: i64)
        requires
            old(engine).wf(),
        ensures
            final(engine).wf(),
            updated_one(old(engine).volumes_view(), final(engine).volumes_view(), volume_id,
                |v: Volume| Volume { state: VolumeState::Released, updated_at: now, ..v }),
    {
        engine.update_volume_state(volume_id, VolumeState::Released, now);
    }
}

} // verus!
