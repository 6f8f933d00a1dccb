//! Release identifiers such as `1.8` or `1.21.3`, and the runtime each one needs.
use vstd::prelude::*;

use crate::error::PipelineError;
use crate::text::{lemma_split_nonempty, lemma_split_prefix_stable, split_on};

verus! {

pub open spec fn is_digit(c: char) -> bool {
    '0' <= c && c <= '9'
}

/// The decimal value of a string of digits.
pub open spec fn digits_value(d: Seq<char>) -> int
    decreases d.len(),
{
    if d.len() == 0 {
        0
    } else {
        digits_value(d.drop_last()) * 10 + (d.last() as int - '0' as int)
    }
}

/// What follows an optional leading `+`, as an unsigned integer parse reads it.
pub open spec fn unsigned_part(c: Seq<char>) -> Seq<char> {
    if c.len() > 0 && c[0] == '+' {
        c.drop_first()
    } else {
        c
    }
}

/// `c` is a decimal `u8`: optional `+`, at least one digit, value at most 255.
pub open spec fn parses_u8(c: Seq<char>) -> bool {
    let d = unsigned_part(c);
    &&& d.len() > 0
    &&& forall|i: int| 0 <= i < d.len() ==> is_digit(#[trigger] d[i])
    &&& digits_value(d) <= 255
}

pub open spec fn u8_value(c: Seq<char>) -> u8 {
    digits_value(unsigned_part(c)) as u8
}

/// A release identifier is well formed when it has at least two dot-separated parts and
/// every part is a `u8`.
pub open spec fn is_version_string(s: Seq<char>) -> bool {
    let parts = split_on(s, '.');
    &&& parts.len() >= 2
    &&& forall|k: int| 0 <= k < parts.len() ==> parses_u8(#[trigger] parts[k])
}

proof fn lemma_digits_value_nonneg(d: Seq<char>)
    requires
        forall|i: int| 0 <= i < d.len() ==> is_digit(#[trigger] d[i]),
    ensures
        digits_value(d) >= 0,
    decreases d.len(),
{
    if d.len() > 0 {
        let p = d.drop_last();
        assert forall|i: int| 0 <= i < p.len() implies is_digit(#[trigger] p[i]) by {
            assert(p[i] == d[i]);
        }
        lemma_digits_value_nonneg(p);
        assert(is_digit(d[d.len() - 1]));
    }
}

/// Reads a decimal `u8` as `str::parse::<u8>` does: an optional `+`, then digits only.
pub fn parse_u8(s: &str) -> (r: Option<u8>)
    ensures
        r is Some <==> parses_u8(s@),
        r matches Some(v) ==> v == u8_value(s@),
{
    let n = s.unicode_len();
    let mut i: usize = 0;
    if n > 0 && s.get_char(0) == '+' {
        i = 1;
    }
    let start = i;
    let ghost d = unsigned_part(s@);
    assert(d =~= s@.subrange(start as int, n as int));
    if start == n {
        return None;
    }
    // The value read so far, held at 256 once it exceeds 255.
    let mut value: u32 = 0;
    while i < n
        invariant
            start <= i <= n,
            n == s@.len(),
            d == unsigned_part(s@),
            d =~= s@.subrange(start as int, n as int),
            forall|j: int| 0 <= j < i - start ==> is_digit(#[trigger] d[j]),
            value == (if digits_value(d.take(i - start)) > 255 {
                256
            } else {
                digits_value(d.take(i - start))
            }),
        decreases n - i,
    {
        let c = s.get_char(i);
        if !('0' <= c && c <= '9') {
            assert(d[i - start] == c);
            assert(!is_digit(d[(i - start) as int]));
            return None;
        }
        let ghost k = i - start;
        proof {
            assert(d.take(k + 1).drop_last() =~= d.take(k));
            assert(d.take(k + 1).last() == c);
            assert forall|j: int| 0 <= j < k implies is_digit(#[trigger] d.take(k)[j]) by {
                assert(d.take(k)[j] == d[j]);
            }
            lemma_digits_value_nonneg(d.take(k));
        }
        let digit = (c as u32) - ('0' as u32);
        if value == 256 {
            value = 256;
        } else {
            value = value * 10 + digit;
            if value > 255 {
                value = 256;
            }
        }
        i = i + 1;
        assert(d[k] == c);
    }
    assert(d.take(n - start) =~= d);
    if value > 255 {
        None
    } else {
        Some(value as u8)
    }
}

/// The decimal digits of `v`, without leading zeros.
pub open spec fn decimal(v: nat) -> Seq<char>
    decreases v,
{
    if v < 10 {
        seq![(v + 48) as char]
    } else {
        decimal(v / 10).push(((v % 10) + 48) as char)
    }
}

/// The one-character string of decimal digit `d`.
fn digit_str(d: u8) -> (r: &'static str)
    requires
        d < 10,
    ensures
        r@ == seq![(d + 48) as char],
{
    proof {
        reveal_strlit("0");
        reveal_strlit("1");
        reveal_strlit("2");
        reveal_strlit("3");
        reveal_strlit("4");
        reveal_strlit("5");
        reveal_strlit("6");
        reveal_strlit("7");
        reveal_strlit("8");
        reveal_strlit("9");
    }
    let r = if d == 0 {
        "0"
    } else if d == 1 {
        "1"
    } else if d == 2 {
        "2"
    } else if d == 3 {
        "3"
    } else if d == 4 {
        "4"
    } else if d == 5 {
        "5"
    } else if d == 6 {
        "6"
    } else if d == 7 {
        "7"
    } else if d == 8 {
        "8"
    } else {
        "9"
    };
    assert(r@ =~= seq![(d + 48) as char]);
    r
}

/// `v` in decimal.
pub fn u8_to_decimal(v: u8) -> (r: String)
    ensures
        r@ == decimal(v as nat),
{
    if v < 10 {
        String::from_str(digit_str(v))
    } else if v < 100 {
        assert(decimal(v as nat) == decimal((v / 10) as nat).push(((v % 10) + 48) as char));
        String::from_str(digit_str(v / 10)).concat(digit_str(v % 10))
    } else {
        assert(decimal(v as nat) == decimal((v / 10) as nat).push(((v % 10) + 48) as char));
        assert(decimal((v / 10) as nat) == decimal((v / 100) as nat).push(
            (((v / 10) % 10) + 48) as char,
        ));
        String::from_str(digit_str(v / 100)).concat(digit_str((v / 10) % 10)).concat(
            digit_str(v % 10),
        )
    }
}

/// A release identifier: major, minor and patch number (patch 0 when absent).
#[derive(Clone, Copy, Debug, PartialEq, Eq, Structural)]
pub struct MinecraftVersion(pub u8, pub u8, pub u8);

/// The runtime major version that a release needs to be built.
pub open spec fn java_version_for(minor: u8, patch: u8) -> u8 {
    if minor < 17 {
        8
    } else if minor == 17 {
        16
    } else if minor < 20 && patch < 5 {
        17
    } else {
        21
    }
}

impl MinecraftVersion {
    /// Parses `major.minor[.patch]`; further parts must be numbers too and are ignored.
    pub fn of(string: String) -> (r: Result<MinecraftVersion, PipelineError>)
        ensures
            r is Ok <==> is_version_string(string@),
            r matches Ok(v) ==> {
                let parts = split_on(string@, '.');
                &&& v.0 == u8_value(parts[0])
                &&& v.1 == u8_value(parts[1])
                &&& v.2 == (if parts.len() > 2 {
                    u8_value(parts[2])
                } else {
                    0u8
                })
            },
            r matches Err(e) ==> e == PipelineError::InvalidVersion,
    {
        let s = string.as_str();
        let n = s.unicode_len();
        let mut numbers: Vec<u8> = Vec::new();
        let mut start: usize = 0;
        let mut i: usize = 0;
        proof {
            assert(s@.take(0) =~= Seq::<char>::empty());
            assert(split_on(s@.take(0), '.') == seq![Seq::<char>::empty()]);
        }
        while i < n
            invariant
                start <= i <= n,
                n == s@.len(),
                s@ == string@,
                numbers@.len() + 1 == split_on(s@.take(i as int), '.').len(),
                split_on(s@.take(i as int), '.').last() =~= s@.subrange(start as int, i as int),
                forall|k: int|
                    0 <= k < numbers@.len() ==> parses_u8(
                        #[trigger] split_on(s@.take(i as int), '.')[k],
                    ) && numbers@[k] == u8_value(split_on(s@.take(i as int), '.')[k]),
            decreases n - i,
        {
            let c = s.get_char(i);
            let ghost before = split_on(s@.take(i as int), '.');
            proof {
                lemma_split_nonempty(s@.take(i as int), '.');
                assert(s@.take(i + 1).drop_last() =~= s@.take(i as int));
                assert(s@.take(i + 1).last() == c);
            }
            if c == '.' {
                let part = s.substring_char(start, i);
                match parse_u8(part) {
                    Some(v) => {
                        numbers.push(v);
                    },
                    None => {
                        proof {
                            assert(split_on(s@.take(i + 1), '.')[numbers@.len() as int] == before.last());
                            lemma_split_nonempty(s@.take(i + 1), '.');
                            lemma_split_prefix_stable(s@, '.', i as int + 1, n as int, numbers@.len() as int);
                            assert(s@.take(n as int) =~= s@);
                            assert(!parses_u8(split_on(s@, '.')[numbers@.len() as int]));
                        }
                        return Err(PipelineError::InvalidVersion);
                    },
                }
                start = i + 1;
                proof {
                    let after = split_on(s@.take(i + 1), '.');
                    assert(after == before.push(Seq::<char>::empty()));
                    assert(s@.subrange(start as int, i + 1) =~= Seq::<char>::empty());
                    assert forall|k: int| 0 <= k < numbers@.len() implies parses_u8(
                        #[trigger] after[k],
                    ) && numbers@[k] == u8_value(after[k]) by {
                        if k < numbers@.len() - 1 {
                            assert(after[k] == before[k]);
                        } else {
                            assert(after[k] == before.last());
                        }
                    }
                }
            } else {
                proof {
                    let after = split_on(s@.take(i + 1), '.');
                    assert(after == before.update(before.len() - 1, before.last().push(c)));
                    assert(s@.subrange(start as int, i + 1) =~= s@.subrange(
                        start as int,
                        i as int,
                    ).push(c));
                    assert forall|k: int| 0 <= k < numbers@.len() implies parses_u8(
                        #[trigger] after[k],
                    ) && numbers@[k] == u8_value(after[k]) by {
                        assert(after[k] == before[k]);
                    }
                }
            }
            i = i + 1;
        }
        proof {
            assert(s@.take(n as int) =~= s@);
        }
        let ghost parts = split_on(s@, '.');
        let last = s.substring_char(start, n);
        match parse_u8(last) {
            Some(v) => {
                numbers.push(v);
            },
            None => {
                assert(!parses_u8(parts[parts.len() - 1]));
                return Err(PipelineError::InvalidVersion);
            },
        }
        assert(forall|k: int|
            0 <= k < numbers@.len() ==> parses_u8(#[trigger] parts[k]) && numbers@[k] == u8_value(
                parts[k],
            ));
        if numbers.len() < 2 {
            return Err(PipelineError::InvalidVersion);
        }
        let patch = if numbers.len() > 2 {
            numbers[2]
        } else {
            0u8
        };
        Ok(MinecraftVersion(numbers[0], numbers[1], patch))
    }

    /// The identifier as `major.minor.patch`.
    pub fn to_version_string(&self) -> (r: String)
        ensures
            r@ == decimal(self.0 as nat) + "."@ + decimal(self.1 as nat) + "."@ + decimal(
                self.2 as nat,
            ),
    {
        u8_to_decimal(self.0).concat(".").concat(u8_to_decimal(self.1).as_str()).concat(".").concat(
            u8_to_decimal(self.2).as_str(),
        )
    }

    /// The runtime major version needed to build this release.
    pub fn get_java_version(&self) -> (r: u8)
        ensures
            r == java_version_for(self.1, self.2),
    {
        if self.1 < 17 {
            return 8;
        }
        if self.1 == 17 {
            return 16;
        }
        if self.1 < 20 && self.2 < 5 {
            return 17;
        }
        21
    }
}

} // verus!
