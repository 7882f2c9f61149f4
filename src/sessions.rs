//! Logged-in users, decoded from the operating system's fixed-size login
//! records through an explicit byte schema.

use vstd::prelude::*;
use vstd::utf8::{decode_utf8, valid_utf8};
use crate::text::{c_text, read_c_text};

verus! {

/// Record type of an ordinary user's login session.
pub const USER_PROCESS: u16 = 7;

/// Where the fields this reader needs sit inside one login record.
pub struct RecordLayout {
    pub record_size: usize,
    /// Offset of the two-byte little-endian record type.
    pub type_offset: usize,
    /// Offset and width of the username field (NUL-padded text).
    pub user_offset: usize,
    pub user_len: usize,
}

impl RecordLayout {
    /// The fields lie inside the record and the username has room for a byte.
    pub open spec fn wf(&self) -> bool {
        &&& self.type_offset + 2 <= self.record_size
        &&& self.user_len >= 1
        &&& self.user_offset + self.user_len <= self.record_size
    }
}

/// The Linux `utmp` schema as a value.
pub open spec fn utmp_schema() -> RecordLayout {
    RecordLayout { record_size: 384, type_offset: 0, user_offset: 44, user_len: 32 }
}

/// Linux `struct utmp`: type (i16) at 0, pid at 4, line [32] at 8, id [4] at 40,
/// user [32] at 44, host [256] at 76, exit status at 332, session at 336,
/// time at 340, address [4 x i32] at 348, reserved [20] at 364; 384 bytes.
pub fn utmp_layout() -> (r: RecordLayout)
    ensures
        r.wf(),
        r == utmp_schema(),
{
    RecordLayout { record_size: 384, type_offset: 0, user_offset: 44, user_len: 32 }
}

/// macOS `struct utmpx`: user [256] at 0, id [4] at 256, line [32] at 260,
/// pid at 292, type (i16) at 296, time (`timeval`, 16 bytes) at 304,
/// host [256] at 320, reserved [16] at 576; 592 bytes.
pub fn utmpx_layout() -> (r: RecordLayout)
    ensures
        r.wf(),
        r.record_size == 592 && r.type_offset == 296 && r.user_offset == 0 && r.user_len == 256,
{
    RecordLayout { record_size: 592, type_offset: 296, user_offset: 0, user_len: 256 }
}

/// Seconds and microseconds of a login record's timestamp.
#[allow(non_camel_case_types)]
pub struct ut_tv {
    pub tv_sec: i32,
    pub tv_usec: i32,
}

impl Default for ut_tv {
    fn default() -> (r: ut_tv)
        ensures
            r.tv_sec == 0 && r.tv_usec == 0,
    {
        ut_tv { tv_sec: 0, tv_usec: 0 }
    }
}

/// A username's bytes as text; invalid UTF-8 reads as `unknown`.
pub open spec fn display_name(b: Seq<u8>) -> Seq<char> {
    if valid_utf8(b) { decode_utf8(b) } else { "unknown"@ }
}

/// The record type stored at `off`.
pub open spec fn type_at(rec: Seq<u8>, off: int) -> int {
    rec[off] as int + 256 * (rec[off + 1] as int)
}

/// The username of a record if it is an active user session: the type is
/// `USER_PROCESS` and the username's first byte is not NUL.
pub open spec fn session_user(rec: Seq<u8>, lay: RecordLayout) -> Option<Seq<char>> {
    let field = rec.subrange(lay.user_offset as int, lay.user_offset + lay.user_len);
    if type_at(rec, lay.type_offset as int) == USER_PROCESS && field[0] != 0 {
        Some(display_name(c_text(field)))
    } else {
        None
    }
}

/// The `k`-th whole record of `data`.
pub open spec fn record_at(data: Seq<u8>, lay: RecordLayout, k: int) -> Seq<u8> {
    data.subrange(k * lay.record_size, (k + 1) * lay.record_size)
}

/// Users of the first `n` records, in record order.
pub open spec fn users_of_records(data: Seq<u8>, lay: RecordLayout, n: nat) -> Seq<Seq<char>>
    decreases n,
{
    if n == 0 {
        Seq::empty()
    } else {
        let rest = users_of_records(data, lay, (n - 1) as nat);
        match session_user(record_at(data, lay, n - 1), lay) {
            Some(u) => rest.push(u),
            None => rest,
        }
    }
}

/// `s` with every repeat of an earlier element left out.
pub open spec fn first_occurrences(s: Seq<Seq<char>>) -> Seq<Seq<char>>
    decreases s.len(),
{
    if s.len() == 0 {
        Seq::empty()
    } else {
        let rest = first_occurrences(s.drop_last());
        if rest.contains(s.last()) { rest } else { rest.push(s.last()) }
    }
}

/// Decodes a NUL-terminated username field of `data` at `start`.
fn read_name(data: &Vec<u8>, start: usize, len: usize) -> (r: String)
    requires
        start + len <= data@.len(),
    ensures
        r@ == display_name(c_text(data@.subrange(start as int, start + len))),
{
    match read_c_text(data, start, len) {
        Some(s) => s,
        None => String::from_str("unknown"),
    }
}

/// The usernames of the active sessions among the whole records of `data`,
/// in record order; a trailing partial record is ignored. With `dedup`, a
/// name already listed is not listed again.
pub fn session_users(data: &Vec<u8>, lay: &RecordLayout, dedup: bool) -> (r: Vec<String>)
    requires
        lay.wf(),
    ensures
        ({
            let all = users_of_records(data@, *lay, data@.len() / lay.record_size as nat);
            r@.map_values(|s: String| s@) == if dedup { first_occurrences(all) } else { all }
        }),
{
    let size = lay.record_size;
    let dl = data.len();
    let n = dl / size;
    let mut out: Vec<String> = Vec::new();
    let mut k: usize = 0;
    proof {
        assert(out@.map_values(|s: String| s@) =~= Seq::<Seq<char>>::empty());
    }
    while k < n
        invariant
            lay.wf(),
            size == lay.record_size,
            dl == data@.len(),
            n == data@.len() / size as nat,
            k <= n,
            out@.map_values(|s: String| s@) == if dedup {
                first_occurrences(users_of_records(data@, *lay, k as nat))
            } else {
                users_of_records(data@, *lay, k as nat)
            },
        decreases n - k,
    {
        proof {
            assert((k + 1) * size <= n * size) by (nonlinear_arith)
                requires k + 1 <= n;
            assert(n * size <= data@.len()) by (nonlinear_arith)
                requires n == data@.len() / size as nat, size > 0;
            assert(k * size + size == (k + 1) * size) by (nonlinear_arith);
        }
        let base = k * size;
        let ghost rec = record_at(data@, *lay, k as int);
        let t0 = data[base + lay.type_offset];
        let t1 = data[base + lay.type_offset + 1];
        let u0 = data[base + lay.user_offset];
        proof {
            assert(rec.len() == size);
            assert(rec[lay.type_offset as int] == t0);
            assert(rec[lay.type_offset + 1] == t1);
            let field = rec.subrange(lay.user_offset as int, lay.user_offset + lay.user_len);
            assert(field[0] == u0);
            assert(field =~= data@.subrange(base + lay.user_offset, base + lay.user_offset + lay.user_len));
        }
        let ghost before = out@.map_values(|s: String| s@);
        let ghost all_before = users_of_records(data@, *lay, k as nat);
        assert(users_of_records(data@, *lay, (k + 1) as nat) == match session_user(rec, *lay) {
            Some(u) => all_before.push(u),
            None => all_before,
        });
        if t0 == USER_PROCESS as u8 && t1 == 0 && u0 != 0 {
            let name = read_name(data, base + lay.user_offset, lay.user_len);
            assert(session_user(rec, *lay) == Some(name@));
            let mut present = false;
            if dedup {
                let mut j: usize = 0;
                while j < out.len()
                    invariant
                        j <= out@.len(),
                        present == exists|m: int| 0 <= m < j && out@[m]@ == name@,
                    decreases out@.len() - j,
                {
                    if out[j] == name {
                        present = true;
                    }
                    j = j + 1;
                }
                proof {
                    if present {
                        let m = choose|m: int| 0 <= m < j && out@[m]@ == name@;
                        assert(before[m] == name@);
                    } else {
                        assert forall|m: int| 0 <= m < before.len() implies before[m] != name@ by {
                            assert(before[m] == out@[m]@);
                        }
                    }
                }
            }
            assert(all_before.push(name@).drop_last() =~= all_before);
            if !present {
                out.push(name);
                assert(out@.map_values(|s: String| s@) =~= before.push(name@));
            }
        } else {
            proof {
                if type_at(rec, lay.type_offset as int) == 7 {
                    assert(t0 == 7 && t1 == 0);
                }
                assert(session_user(rec, *lay) is None);
            }
        }
        k = k + 1;
    }
    out
}

/// The users logged in according to a Linux `utmp` store read whole into `data`.
pub fn get_utmp(data: &Vec<u8>) -> (r: Vec<String>)
    ensures
        r@.map_values(|s: String| s@) == users_of_records(data@, utmp_schema(), data@.len() / 384),
{
    let lay = utmp_layout();
    session_users(data, &lay, false)
}

} // verus!
