//! The artifact resolver: selecting the latest image of a pollen's output
//! listing by the frame number embedded in the entry names.
//!
//! Image entries are named `<prefix><zero-padded frame number>.jpg`. The
//! resolver picks the entry whose frame number is largest; entries without
//! that shape never influence the result, and when nothing matches the
//! caller must skip the round. Frame numbers are compared as digit runs of
//! arbitrary length, so no counter width is assumed anywhere.

use vstd::prelude::*;
use vstd::string::StrSliceExecFns;

use crate::digits::{
    all_digits, digits_lt, digits_value, lemma_strip_zeros_split, lemma_strip_zeros_value,
    no_leading_zero, strip_zeros,
};
use crate::registry::PolledEvolutionInfo;

verus! {

/// A decimal digit character.
pub open spec fn is_digit_char(c: char) -> bool {
    48 <= c as u32 <= 57
}

/// The value of a decimal digit character.
pub open spec fn digit_val_char(c: char) -> u8 {
    (c as u32 - 48) as u8
}

/// Start of the maximal digit run that ends just before position `e`.
pub open spec fn run_start(name: Seq<char>, e: int) -> int
    decreases (if e > 0 {
        e
    } else {
        0
    }),
{
    if e > 0 && 0 <= e <= name.len() && is_digit_char(name[e - 1]) {
        run_start(name, e - 1)
    } else {
        e
    }
}

/// Positions from the run start up to `e` are all digits, and the run is
/// maximal: the position just before it, if any, is not a digit.
pub proof fn lemma_run_start(name: Seq<char>, e: int)
    requires
        0 <= e <= name.len(),
    ensures
        0 <= run_start(name, e) <= e,
        forall|k: int| run_start(name, e) <= k < e ==> is_digit_char(#[trigger] name[k]),
        run_start(name, e) > 0 ==> !is_digit_char(name[run_start(name, e) - 1]),
    decreases e,
{
    if e > 0 && is_digit_char(name[e - 1]) {
        lemma_run_start(name, e - 1);
    }
}

/// An entry name of the artifact shape: long enough, ending in the fixed
/// extension, with at least one digit right before it.
pub open spec fn matches_name(name: Seq<char>) -> bool {
    &&& name.len() >= 5
    &&& name.subrange(name.len() - 4, name.len() as int) == ".jpg"@
    &&& is_digit_char(name[name.len() - 5])
}

/// The digit values of a name's frame-number run.
pub open spec fn frame_digits(name: Seq<char>) -> Seq<u8> {
    let e = name.len() - 4;
    name.subrange(run_start(name, e), e).map_values(|c: char| digit_val_char(c))
}

/// The frame number embedded in an artifact name.
pub open spec fn frame_value(name: Seq<char>) -> nat {
    digits_value(frame_digits(name))
}

fn is_digit(c: char) -> (r: bool)
    ensures
        r == is_digit_char(c),
{
    let u = c as u32;
    48 <= u && u <= 57
}

/// Extracts the frame-number run of an artifact name, already stripped of
/// leading zeros, or reports that the name does not match the shape.
fn extract_frame(name: &str) -> (r: Option<Vec<u8>>)
    ensures
        r is Some <==> matches_name(name@),
        r matches Some(v) ==> v@ == strip_zeros(frame_digits(name@)) && all_digits(v@)
            && no_leading_zero(v@) && digits_value(v@) == frame_value(name@),
{
    let n = name.unicode_len();
    if n < 5 {
        return None;
    }
    let suffix = name.substring_char(n - 4, n);
    if !crate::message::str_eq(suffix, ".jpg") {
        return None;
    }
    if !is_digit(name.get_char(n - 5)) {
        return None;
    }
    let e = n - 4;
    let mut s: usize = e;
    while s > 0 && is_digit(name.get_char(s - 1))
        invariant
            n == name@.len(),
            n >= 5,
            e == n - 4,
            0 <= s <= e,
            run_start(name@, e as int) == run_start(name@, s as int),
        decreases s,
    {
        s = s - 1;
    }
    proof {
        assert(run_start(name@, s as int) == s as int);
        assert(run_start(name@, e as int) == s as int);
        lemma_run_start(name@, e as int);
    }
    let mut z: usize = s;
    while z < e && name.get_char(z) as u32 == 48
        invariant
            n == name@.len(),
            n >= 5,
            e == n - 4,
            0 <= s <= z <= e,
            forall|k: int| s <= k < z ==> name@[k] as u32 == 48,
        decreases e - z,
    {
        z = z + 1;
    }
    let mut v: Vec<u8> = Vec::new();
    let mut idx: usize = z;
    while idx < e
        invariant
            n == name@.len(),
            n >= 5,
            e == n - 4,
            0 <= s <= z <= idx <= e,
            run_start(name@, e as int) == s as int,
            forall|k: int| s <= k < e ==> is_digit_char(name@[k]),
            v@ == name@.subrange(z as int, idx as int).map_values(|c: char| digit_val_char(c)),
        decreases e - idx,
    {
        let c = name.get_char(idx);
        let d = (c as u32) - 48;
        v.push(d as u8);
        proof {
            assert(name@.subrange(z as int, idx + 1 as int).map_values(
                |ch: char| digit_val_char(ch),
            ) =~= name@.subrange(z as int, idx as int).map_values(
                |ch: char| digit_val_char(ch),
            ).push(digit_val_char(name@[idx as int])));
        }
        idx = idx + 1;
    }
    proof {
        let fd = frame_digits(name@);
        assert(fd == name@.subrange(s as int, e as int).map_values(
            |c: char| digit_val_char(c),
        ));
        assert(forall|k: int| 0 <= k < z - s ==> fd[k] == 0);
        assert(z < e ==> fd[z - s] != 0);
        lemma_strip_zeros_split(fd, z - s);
        assert(fd.subrange(z - s, fd.len() as int) =~= name@.subrange(z as int, e as int).map_values(
            |c: char| digit_val_char(c),
        ));
        assert(v@ == strip_zeros(fd));
        lemma_strip_zeros_value(fd);
        assert(matches_name(name@));
    }
    Some(v)
}

/// Selects the listing entry whose name embeds the largest frame number:
/// the single latest image of the pollen's output folder. Names that do not
/// match the artifact shape never influence the result; among equal frame
/// numbers (impossible with a strictly increasing counter) the earliest
/// entry stays. `None` means no entry matches and the round must be skipped.
pub fn get_the_latest_image_according_to_numbering(
    entries: &Vec<PolledEvolutionInfo>,
) -> (r: Option<usize>)
    ensures
        match r {
            Some(i) => {
                &&& 0 <= i < entries@.len()
                &&& matches_name(entries@[i as int]@.name)
                &&& forall|j: int|
                    0 <= j < entries@.len() && matches_name(#[trigger] entries@[j]@.name)
                        ==> frame_value(entries@[j]@.name) <= frame_value(entries@[i as int]@.name)
                &&& forall|j: int|
                    0 <= j < i && matches_name(#[trigger] entries@[j]@.name) ==> frame_value(
                        entries@[j]@.name,
                    ) < frame_value(entries@[i as int]@.name)
            },
            None => forall|j: int|
                0 <= j < entries@.len() ==> !matches_name(#[trigger] entries@[j]@.name),
        },
{
    let n = entries.len();
    let mut found = false;
    let mut best_i: usize = 0;
    let mut best_run: Vec<u8> = Vec::new();
    let mut k: usize = 0;
    while k < n
        invariant
            n == entries@.len(),
            0 <= k <= n,
            !found ==> forall|j: int|
                0 <= j < k ==> !matches_name(#[trigger] entries@[j]@.name),
            found ==> {
                &&& 0 <= best_i < k
                &&& matches_name(entries@[best_i as int]@.name)
                &&& all_digits(best_run@)
                &&& no_leading_zero(best_run@)
                &&& digits_value(best_run@) == frame_value(entries@[best_i as int]@.name)
                &&& forall|j: int|
                    0 <= j < k && matches_name(#[trigger] entries@[j]@.name) ==> frame_value(
                        entries@[j]@.name,
                    ) <= frame_value(entries@[best_i as int]@.name)
                &&& forall|j: int|
                    0 <= j < best_i && matches_name(#[trigger] entries@[j]@.name) ==> frame_value(
                        entries@[j]@.name,
                    ) < frame_value(entries@[best_i as int]@.name)
            },
        decreases n - k,
    {
        let entry = &entries[k];
        match extract_frame(entry.name.as_str()) {
            None => {},
            Some(run) => {
                if !found {
                    found = true;
                    best_i = k;
                    best_run = run;
                } else {
                    if digits_lt(&best_run, &run) {
                        best_i = k;
                        best_run = run;
                    }
                }
            },
        }
        k = k + 1;
    }
    if found {
        Some(best_i)
    } else {
        None
    }
}

} // verus!
