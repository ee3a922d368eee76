//! The command line's connection to the daemon and the table it prints of
//! the daemon's volumes.
use vstd::prelude::*;
use crate::types::volume::Volume;
use crate::text::{append_str, uuid_chars, uuid_text};
use super::{append_padded, pad_right, spaces};

verus! {

/// A client of the daemon at an address.
#[derive(Debug)]
pub struct DaemonClient {
    address: String,
}

/// The byte length of a text, as `str::len` counts it.
pub open spec fn byte_len(s: Seq<char>) -> nat {
    vstd::utf8::encode_utf8(s).len()
}

/// Width of the name column: the longest name in bytes, at least 4.
pub open spec fn name_width(v: Seq<Volume>) -> nat
    decreases v.len(),
{
    if v.len() == 0 {
        4
    } else {
        let w = name_width(v.drop_last());
        let n = byte_len(v.last().name@);
        if n > w { n } else { w }
    }
}

/// Width of the mount column: the longest mount point in bytes (one for
/// `-`), at least 12.
pub open spec fn mount_width(v: Seq<Volume>) -> nat
    decreases v.len(),
{
    if v.len() == 0 {
        12
    } else {
        let w = mount_width(v.drop_last());
        let n = match v.last().mount_point {
            Some(p) => byte_len(p@),
            None => 1,
        };
        if n > w { n } else { w }
    }
}

/// `n` copies of `c`.
pub open spec fn repeat_char(c: char, n: nat) -> Seq<char> {
    Seq::new(n, |i: int| c)
}

/// A row of the table: name and id padded, the status in color followed
/// by spaces up to its column, then the mount point (`-` when there is
/// none).
pub open spec fn table_row(v: Volume, nw: nat) -> Seq<char> {
    pad_right(v.name@, nw) + " "@ + pad_right(uuid_text(v.id), 36) + " "@
        + if v.is_mounted { "\x1b[32mmounted\x1b[0m"@ + spaces(3) } else { "\x1b[31munmounted\x1b[0m"@ + spaces(1) }
        + match v.mount_point { Some(p) => p@, None => "-"@ }
}

/// The lines of the volume table: a bold header, a rule of dashes under
/// each column and one row per volume.
pub open spec fn table_lines_ok(v: Seq<Volume>, lines: Seq<Seq<char>>) -> bool {
    let nw = name_width(v);
    let mw = mount_width(v);
    &&& lines.len() == v.len() + 2
    &&& lines[0] == "\x1b[1m"@ + pad_right("Name"@, nw) + " "@ + pad_right("UUID"@, 36) + " "@ + pad_right("Status"@, 9)
        + " "@ + pad_right("Mount Point(s)"@, mw) + "\x1b[0m"@
    &&& lines[1] == repeat_char('-', nw) + " "@ + repeat_char('-', 36) + " "@ + repeat_char('-', 9) + " "@ + repeat_char('-', mw)
    &&& forall|i: int| 0 <= i < v.len() ==> #[trigger] lines[i + 2] == table_row(v[i], nw)
}

fn append_repeat(out: &mut String, c: char, n: usize)
    ensures
        final(out)@ == old(out)@ + repeat_char(c, n as nat),
{
    let ghost base = old(out)@;
    let mut k: usize = 0;
    while k < n
        invariant
            k <= n,
            out@ == base + repeat_char(c, k as nat),
        decreases n - k,
    {
        crate::text::push_char(out, c);
        k += 1;
        assert(out@ =~= base + repeat_char(c, k as nat));
    }
}

impl DaemonClient {
    pub closed spec fn address_view(&self) -> Seq<char> {
        self.address@
    }

    /// A client of the daemon at `address`.
    pub fn new(address: String) -> (c: Self)
        ensures
            c.address_view() == address@,
    {
        DaemonClient { address }
    }

    /// The daemon's address.
    pub fn address(&self) -> (a: &String)
        ensures
            a@ == self.address_view(),
    {
        &self.address
    }

    /// The lines of the table of volumes the command line prints.
    pub fn volumes_table_lines(volumes: &Vec<Volume>) -> (lines: Vec<String>)
        requires
            name_width(volumes@) < usize::MAX,
            mount_width(volumes@) < usize::MAX,
        ensures
            table_lines_ok(volumes@, lines@.map_values(|l: String| l@)),
    {
        let mut nw: usize = 4;
        let mut mw: usize = 12;
        let mut i: usize = 0;
        assert(volumes@.take(0) =~= Seq::<Volume>::empty());
        while i < volumes.len()
            invariant
                i <= volumes@.len(),
                nw == name_width(volumes@.take(i as int)),
                mw == mount_width(volumes@.take(i as int)),
                name_width(volumes@) < usize::MAX,
                mount_width(volumes@) < usize::MAX,
            decreases volumes.len() - i,
        {
            assert(volumes@.take(i + 1).drop_last() =~= volumes@.take(i as int));
            proof {
                lemma_widths_grow(volumes@, i as int + 1);
            }
            let n = volumes[i].name.as_str().len();
            if n > nw {
                nw = n;
            }
            let m = match &volumes[i].mount_point {
                Some(p) => p.as_str().len(),
                None => 1,
            };
            if m > mw {
                mw = m;
            }
            i += 1;
        }
        assert(volumes@.take(volumes@.len() as int) =~= volumes@);
        let mut lines: Vec<String> = Vec::new();
        let mut h = "\x1b[1m".to_owned();
        append_padded(&mut h, "Name", nw);
        append_str(&mut h, " ");
        append_padded(&mut h, "UUID", 36);
        append_str(&mut h, " ");
        append_padded(&mut h, "Status", 9);
        append_str(&mut h, " ");
        append_padded(&mut h, "Mount Point(s)", mw);
        append_str(&mut h, "\x1b[0m");
        lines.push(h);
        let mut rule = String::new();
        append_repeat(&mut rule, '-', nw);
        append_str(&mut rule, " ");
        append_repeat(&mut rule, '-', 36);
        append_str(&mut rule, " ");
        append_repeat(&mut rule, '-', 9);
        append_str(&mut rule, " ");
        append_repeat(&mut rule, '-', mw);
        lines.push(rule);
        let mut j: usize = 0;
        while j < volumes.len()
            invariant
                j <= volumes@.len(),
                nw == name_width(volumes@),
                mw == mount_width(volumes@),
                lines@.len() == j + 2,
                lines@[0]@ == "\x1b[1m"@ + pad_right("Name"@, nw as nat) + " "@ + pad_right("UUID"@, 36) + " "@
                    + pad_right("Status"@, 9) + " "@ + pad_right("Mount Point(s)"@, mw as nat) + "\x1b[0m"@,
                lines@[1]@ == repeat_char('-', nw as nat) + " "@ + repeat_char('-', 36) + " "@ + repeat_char('-', 9) + " "@
                    + repeat_char('-', mw as nat),
                forall|t: int| 0 <= t < j ==> (#[trigger] lines@[t + 2])@ == table_row(volumes@[t], nw as nat),
            decreases volumes.len() - j,
        {
            let v = &volumes[j];
            let mut row = String::new();
            append_padded(&mut row, v.name.as_str(), nw);
            append_str(&mut row, " ");
            let id = uuid_chars(v.id);
            let id_s = crate::text::string_of(id.as_slice());
            append_padded(&mut row, id_s.as_str(), 36);
            append_str(&mut row, " ");
            if v.is_mounted {
                append_str(&mut row, "\x1b[32mmounted\x1b[0m");
                append_repeat(&mut row, ' ', 3);
            } else {
                append_str(&mut row, "\x1b[31munmounted\x1b[0m");
                append_repeat(&mut row, ' ', 1);
            }
            match &v.mount_point {
                Some(p) => append_str(&mut row, p.as_str()),
                None => append_str(&mut row, "-"),
            }
            let ghost before = lines@;
            proof {
                assert(repeat_char(' ', 3) =~= spaces(3));
                assert(repeat_char(' ', 1) =~= spaces(1));
            }
            lines.push(row);
            proof {
                assert forall|t: int| 0 <= t < j + 1 implies (#[trigger] lines@[t + 2])@ == table_row(volumes@[t], nw as nat) by {
                    if t < j {
                        assert(lines@[t + 2] == before[t + 2]);
                    }
                }
            }
            j += 1;
        }
        proof {
            let lv = lines@.map_values(|l: String| l@);
            assert forall|t: int| 0 <= t < volumes@.len() implies #[trigger] lv[t + 2] == table_row(volumes@[t], nw as nat) by {
                assert(lv[t + 2] == lines@[t + 2]@);
            }
            assert(lv[0] == lines@[0]@);
            assert(lv[1] == lines@[1]@);
        }
        lines
    }
}

proof fn lemma_widths_grow(v: Seq<Volume>, i: int)
    requires
        0 < i <= v.len(),
    ensures
        name_width(v.take(i)) <= name_width(v),
        mount_width(v.take(i)) <= mount_width(v),
        byte_len(v[i - 1].name@) <= name_width(v),
        (match v[i - 1].mount_point { Some(p) => byte_len(p@), None => 1 }) <= mount_width(v),
    decreases v.len() - i,
{
    if i < v.len() {
        lemma_widths_grow(v, i + 1);
        assert(v.take(i + 1).drop_last() =~= v.take(i));
        assert(v.take(i + 1)[i - 1] == v[i - 1]);
        assert(v.take(i + 1).last() == v[i]);
        lemma_take_last(v, i + 1);
    } else {
        assert(v.take(i) =~= v);
        lemma_take_last(v, i);
    }
}

proof fn lemma_take_last(v: Seq<Volume>, i: int)
    requires
        0 < i <= v.len(),
    ensures
        byte_len(v[i - 1].name@) <= name_width(v.take(i)),
        (match v[i - 1].mount_point { Some(p) => byte_len(p@), None => 1 }) <= mount_width(v.take(i)),
        name_width(v.take(i - 1)) <= name_width(v.take(i)),
        mount_width(v.take(i - 1)) <= mount_width(v.take(i)),
{
    assert(v.take(i).drop_last() =~= v.take(i - 1));
    assert(v.take(i).last() == v[i - 1]);
}

} // verus!
