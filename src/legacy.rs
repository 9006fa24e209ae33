//! The older text format of exported meshes: a first line of vertex
//! coordinates and a second line of triangle indices, each a list of tokens
//! between spaces. The index line is read here; the coordinates are decimal
//! fractions and are read by the host.

use vstd::prelude::*;

verus! {

/// The path of a mesh file in the older text format.
pub struct MeshPath(pub String);

impl MeshPath {
    pub fn new(path: &str) -> (r: Self)
        ensures
            r.0@ == path@,
    {
        MeshPath(String::from_str(path))
    }
}

/// The line split on single spaces so far: the finished tokens, and the
/// token still being read. Empty pieces between two spaces are no tokens.
pub open spec fn split_spaces(s: Seq<u8>) -> (Seq<Seq<u8>>, Seq<u8>)
    decreases s.len(),
{
    if s.len() == 0 {
        (seq![], seq![])
    } else {
        let before = split_spaces(s.drop_last());
        if s.last() == 32 {
            if before.1.len() > 0 {
                (before.0.push(before.1), seq![])
            } else {
                (before.0, seq![])
            }
        } else {
            (before.0, before.1.push(s.last()))
        }
    }
}

/// The tokens of a line: its pieces between spaces that are not empty.
pub open spec fn tokens(s: Seq<u8>) -> Seq<Seq<u8>> {
    let split = split_spaces(s);
    if split.1.len() > 0 {
        split.0.push(split.1)
    } else {
        split.0
    }
}

pub open spec fn is_digit(b: u8) -> bool {
    48 <= b <= 57
}

/// The value of a run of decimal digits.
pub open spec fn digits_value(s: Seq<u8>) -> int
    decreases s.len(),
{
    if s.len() == 0 {
        0
    } else {
        digits_value(s.drop_last()) * 10 + (s.last() - 48)
    }
}

pub open spec fn all_digits(s: Seq<u8>) -> bool {
    forall|i: int| 0 <= i < s.len() ==> #[trigger] is_digit(s[i])
}

/// A token without its leading `+`, if it has one.
pub open spec fn unsigned_part(t: Seq<u8>) -> Seq<u8> {
    if t.len() > 0 && t[0] == 43 {
        t.drop_first()
    } else {
        t
    }
}

/// A token read as `str::parse::<u32>` reads it: an optional `+` and one or
/// more decimal digits, of a value that fits.
pub open spec fn token_value(t: Seq<u8>) -> Option<u32> {
    let d = unsigned_part(t);
    if d.len() > 0 && all_digits(d) && digits_value(d) <= u32::MAX {
        Some(digits_value(d) as u32)
    } else {
        None
    }
}

/// The value of one token, or `None` when it is no number that fits `u32`.
fn parse_token(t: &Vec<u8>) -> (r: Option<u32>)
    ensures
        r == token_value(t@),
{
    let start: usize = if t.len() > 0 && t[0] == 43 {
        1
    } else {
        0
    };
    let ghost d = unsigned_part(t@);
    assert(d =~= t@.subrange(start as int, t@.len() as int));
    let mut value: u64 = 0;
    let mut digits = true;
    let mut too_large = false;
    let mut i: usize = start;
    while i < t.len()
        invariant
            start <= i <= t@.len(),
            d == t@.subrange(start as int, t@.len() as int),
            digits == forall|j: int| start <= j < i ==> #[trigger] is_digit(t@[j]),
            digits && !too_large ==> value == digits_value(t@.subrange(start as int, i as int)),
            digits && too_large ==> digits_value(t@.subrange(start as int, i as int)) > u32::MAX,
            value <= u32::MAX,
        decreases t@.len() - i,
    {
        let b = t[i];
        let ghost prefix = t@.subrange(start as int, i as int);
        assert(t@.subrange(start as int, i + 1).drop_last() =~= prefix);
        if 48 <= b && b <= 57 {
            assert(is_digit(t@[i as int]));
            if !too_large {
                let next = value * 10 + (b - 48) as u64;
                if next > u32::MAX as u64 {
                    too_large = true;
                } else {
                    value = next;
                }
            }
        } else {
            assert(!is_digit(t@[i as int]));
            digits = false;
        }
        i = i + 1;
    }
    if digits && !too_large && t.len() > start {
        assert forall|j: int| 0 <= j < d.len() implies #[trigger] is_digit(d[j]) by {
            assert(d[j] == t@[j + start]);
        }
        assert(value == digits_value(d));
        Some(value as u32)
    } else {
        proof {
            if !digits {
                let j = choose|j: int| start <= j < t@.len() && !#[trigger] is_digit(t@[j]);
                assert(d[j - start] == t@[j]);
                assert(!is_digit(d[j - start]));
                assert(!all_digits(d));
                assert(token_value(t@) is None);
            } else if too_large {
                assert(digits_value(d) > u32::MAX);
                assert(token_value(t@) is None);
            } else {
                assert(d.len() == 0);
                assert(token_value(t@) is None);
            }
        }
        None
    }
}

/// The indices of the index line of a mesh file: every token read as a
/// `u32`; `None` when one of them is no such number.
pub fn parse_index_line(line: &Vec<u8>) -> (r: Option<Vec<u32>>)
    ensures
        r is Some <==> forall|k: int|
            0 <= k < tokens(line@).len() ==> #[trigger] token_value(tokens(line@)[k]) is Some,
        r matches Some(v) ==> v@.len() == tokens(line@).len() && forall|k: int|
            0 <= k < v@.len() ==> Some(#[trigger] v@[k]) == token_value(tokens(line@)[k]),
{
    let mut values: Vec<u32> = Vec::new();
    let mut readable = true;
    let mut current: Vec<u8> = Vec::new();
    let mut i: usize = 0;
    while i < line.len()
        invariant
            i <= line@.len(),
            split_spaces(line@.take(i as int)).1 == current@,
            readable ==> values@.len() == split_spaces(line@.take(i as int)).0.len(),
            readable ==> forall|k: int|
                0 <= k < values@.len() ==> Some(#[trigger] values@[k]) == token_value(
                    split_spaces(line@.take(i as int)).0[k],
                ),
            readable == forall|k: int|
                0 <= k < split_spaces(line@.take(i as int)).0.len() ==> #[trigger] token_value(
                    split_spaces(line@.take(i as int)).0[k],
                ) is Some,
        decreases line@.len() - i,
    {
        let ghost before = split_spaces(line@.take(i as int));
        assert(line@.take(i + 1).drop_last() =~= line@.take(i as int));
        let b = line[i];
        if b == 32 {
            if current.len() > 0 {
                match parse_token(&current) {
                    Some(value) => {
                        values.push(value);
                    },
                    None => {
                        readable = false;
                    },
                }
                proof {
                    let after = split_spaces(line@.take(i + 1));
                    assert(after.0 == before.0.push(current@));
                    if readable {
                        assert forall|k: int| 0 <= k < after.0.len() implies #[trigger] token_value(
                            after.0[k],
                        ) is Some by {
                            if k < before.0.len() {
                                assert(after.0[k] == before.0[k]);
                            }
                        }
                    } else {
                        if forall|k: int|
                            0 <= k < before.0.len() ==> #[trigger] token_value(before.0[k]) is Some {
                            assert(!(token_value(after.0[before.0.len() as int]) is Some));
                        } else {
                            let k = choose|k: int|
                                0 <= k < before.0.len() && !(#[trigger] token_value(before.0[k]) is Some);
                            assert(after.0[k] == before.0[k]);
                        }
                    }
                }
            }
            current = Vec::new();
        } else {
            current.push(b);
        }
        i = i + 1;
    }
    assert(line@.take(line@.len() as int) =~= line@);
    let ghost split = split_spaces(line@);
    if current.len() > 0 {
        match parse_token(&current) {
            Some(value) => {
                values.push(value);
            },
            None => {
                readable = false;
            },
        }
        proof {
            let all = tokens(line@);
            assert(all == split.0.push(current@));
            if !readable {
                if forall|k: int| 0 <= k < split.0.len() ==> #[trigger] token_value(split.0[k]) is Some {
                    assert(!(token_value(all[split.0.len() as int]) is Some));
                } else {
                    let k = choose|k: int|
                        0 <= k < split.0.len() && !(#[trigger] token_value(split.0[k]) is Some);
                    assert(all[k] == split.0[k]);
                }
            } else {
                assert forall|k: int| 0 <= k < all.len() implies #[trigger] token_value(all[k]) is Some by {
                    if k < split.0.len() {
                        assert(all[k] == split.0[k]);
                    }
                }
            }
        }
    }
    if readable {
        Some(values)
    } else {
        None
    }
}

} // verus!
