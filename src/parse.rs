use crate::board::Position;
use vstd::prelude::*;

verus! {

/// Why text or numbers could not be read as a position.
#[derive(Debug, Clone, Copy, PartialEq, Eq, Structural)]
pub enum ParsePositionError {
    /// Not exactly two coordinates.
    ArgumentCount,
    /// The first coordinate is not a number from 0 to 255.
    InvalidX,
    /// The second coordinate is not a number from 0 to 255.
    InvalidY,
}

/// Unicode white space, the characters that trimming removes.
pub open spec fn is_space(c: char) -> bool {
    let u = c as u32;
    (9 <= u && u <= 13) || u == 32 || u == 0x85 || u == 0xA0 || u == 0x1680 || (0x2000 <= u && u
        <= 0x200A) || u == 0x2028 || u == 0x2029 || u == 0x202F || u == 0x205F || u == 0x3000
}

pub open spec fn trim_start(t: Seq<char>) -> Seq<char>
    decreases t.len(),
{
    if t.len() > 0 && is_space(t[0]) {
        trim_start(t.drop_first())
    } else {
        t
    }
}

pub open spec fn trim_end(t: Seq<char>) -> Seq<char>
    decreases t.len(),
{
    if t.len() > 0 && is_space(t.last()) {
        trim_end(t.drop_last())
    } else {
        t
    }
}

/// `t` without white space at either end.
pub open spec fn trim(t: Seq<char>) -> Seq<char> {
    trim_end(trim_start(t))
}

pub open spec fn is_digit(c: char) -> bool {
    48 <= c as u32 && c as u32 <= 57
}

/// The number written in decimal by the digits `d`.
pub open spec fn digits_value(d: Seq<char>) -> nat
    decreases d.len(),
{
    if d.len() == 0 {
        0
    } else {
        digits_value(d.drop_last()) * 10 + (d.last() as u32 - 48) as nat
    }
}

/// `t` without a leading `+`.
pub open spec fn unsigned_digits(t: Seq<char>) -> Seq<char> {
    if t.len() > 0 && t[0] == '+' {
        t.drop_first()
    } else {
        t
    }
}

pub open spec fn all_digits(d: Seq<char>) -> bool {
    forall|i: int| 0 <= i < d.len() ==> is_digit(#[trigger] d[i])
}

/// The byte written by `t`: decimal digits, at least one, after an optional `+`,
/// standing for a value of at most 255.
pub open spec fn decimal_u8(t: Seq<char>) -> Option<u8> {
    let d = unsigned_digits(t);
    if d.len() > 0 && all_digits(d) && digits_value(d) <= 255 {
        Some(digits_value(d) as u8)
    } else {
        None
    }
}

/// `k` is the one comma in `t`.
pub open spec fn single_comma(t: Seq<char>, k: int) -> bool {
    &&& 0 <= k < t.len()
    &&& t[k] == ','
    &&& forall|j: int| 0 <= j < t.len() && j != k ==> #[trigger] t[j] != ','
}

/// The position written as `x,y`, each coordinate trimmed of white space.
pub open spec fn parse_position(t: Seq<char>) -> Result<Position, ParsePositionError> {
    if exists|k: int| #[trigger] single_comma(t, k) {
        let k = choose|k: int| #[trigger] single_comma(t, k);
        match decimal_u8(trim(t.subrange(0, k))) {
            None => Err(ParsePositionError::InvalidX),
            Some(x) => match decimal_u8(trim(t.subrange(k + 1, t.len() as int))) {
                None => Err(ParsePositionError::InvalidY),
                Some(y) => Ok(Position { x, y }),
            },
        }
    } else {
        Err(ParsePositionError::ArgumentCount)
    }
}

fn is_space_char(c: char) -> (r: bool)
    ensures
        r == is_space(c),
{
    let u = c as u32;
    (9 <= u && u <= 13) || u == 32 || u == 0x85 || u == 0xA0 || u == 0x1680 || (0x2000 <= u && u
        <= 0x200A) || u == 0x2028 || u == 0x2029 || u == 0x202F || u == 0x205F || u == 0x3000
}

fn chars_of(s: &str) -> (r: Vec<char>)
    ensures
        r@ == s@,
{
    let n = s.unicode_len();
    let mut r: Vec<char> = Vec::new();
    let mut i: usize = 0;
    while i < n
        invariant
            n == s@.len(),
            i <= n,
            r@ == s@.subrange(0, i as int),
        decreases n - i,
    {
        r.push(s.get_char(i));
        i = i + 1;
        assert(r@ =~= s@.subrange(0, i as int));
    }
    assert(r@ =~= s@);
    r
}

/// The bounds of `t[lo..hi]` once trimmed.
fn trimmed_bounds(t: &Vec<char>, lo: usize, hi: usize) -> (r: (usize, usize))
    requires
        lo <= hi <= t@.len(),
    ensures
        lo <= r.0 <= r.1 <= hi,
        t@.subrange(r.0 as int, r.1 as int) == trim(t@.subrange(lo as int, hi as int)),
{
    let mut a = lo;
    while a < hi && is_space_char(t[a])
        invariant
            lo <= a <= hi <= t@.len(),
            trim_start(t@.subrange(lo as int, hi as int)) == trim_start(
                t@.subrange(a as int, hi as int),
            ),
        decreases hi - a,
    {
        assert(t@.subrange(a as int, hi as int).drop_first() =~= t@.subrange(a + 1, hi as int));
        a = a + 1;
    }
    let mut b = hi;
    while b > a && is_space_char(t[b - 1])
        invariant
            lo <= a <= b <= hi <= t@.len(),
            trim(t@.subrange(lo as int, hi as int)) == trim_end(t@.subrange(a as int, b as int)),
        decreases b - a,
    {
        assert(t@.subrange(a as int, b as int).drop_last() =~= t@.subrange(a as int, b - 1));
        b = b - 1;
    }
    (a, b)
}

/// The byte written by `t[lo..hi]`, as `decimal_u8` reads it.
fn decimal_value(t: &Vec<char>, lo: usize, hi: usize) -> (r: Option<u8>)
    requires
        lo <= hi <= t@.len(),
    ensures
        r == decimal_u8(t@.subrange(lo as int, hi as int)),
{
    let ghost whole = t@.subrange(lo as int, hi as int);
    let start = if lo < hi && t[lo] == '+' {
        lo + 1
    } else {
        lo
    };
    let ghost d = t@.subrange(start as int, hi as int);
    assert(d == unsigned_digits(whole)) by {
        if lo < hi {
            assert(whole.drop_first() =~= t@.subrange(lo + 1, hi as int));
        }
    }
    if start == hi {
        return None;
    }
    let mut acc: u32 = 0;
    let mut i = start;
    while i < hi
        invariant
            start <= i <= hi <= t@.len(),
            d == t@.subrange(start as int, hi as int),
            whole == t@.subrange(lo as int, hi as int),
            d == unsigned_digits(whole),
            forall|j: int| start <= j < i ==> is_digit(#[trigger] t@[j]),
            acc <= 256,
            acc == if digits_value(t@.subrange(start as int, i as int)) < 256 {
                digits_value(t@.subrange(start as int, i as int))
            } else {
                256
            },
        decreases hi - i,
    {
        let c = t[i];
        let code = c as u32;
        if !(48 <= code && code <= 57) {
            proof {
                let j = i - start;
                assert(d[j] == t@[i as int]);
                assert(!is_digit(d[j]));
                assert(!all_digits(d));
            }
            return None;
        }
        let ghost before = t@.subrange(start as int, i as int);
        assert(t@.subrange(start as int, i + 1).drop_last() =~= before);
        let next = acc * 10 + (code - 48);
        acc = if next > 256 {
            256
        } else {
            next
        };
        i = i + 1;
    }
    assert(t@.subrange(start as int, hi as int) =~= d);
    assert forall|j: int| 0 <= j < d.len() implies is_digit(#[trigger] d[j]) by {
        assert(d[j] == t@[start + j]);
    }
    assert(all_digits(d));
    if acc <= 255 {
        Some(acc as u8)
    } else {
        None
    }
}

impl Position {
    /// Reads a position written as `x,y`; white space around each coordinate is
    /// ignored.
    pub fn parse(s: &str) -> (r: Result<Position, ParsePositionError>)
        ensures
            r == parse_position(s@),
    {
        let t = chars_of(s);
        let n = t.len();
        let mut comma: Option<usize> = None;
        let mut many = false;
        let mut i: usize = 0;
        while i < n
            invariant
                t@ == s@,
                n == t@.len(),
                i <= n,
                !many && comma is None ==> forall|j: int| 0 <= j < i ==> #[trigger] t@[j] != ',',
                !many ==> (comma matches Some(k) ==> k < i && t@[k as int] == ',' && forall|j: int|
                    0 <= j < i && j != k ==> #[trigger] t@[j] != ','),
                many ==> exists|a: int, b: int|
                    0 <= a < b < n && #[trigger] t@[a] == ',' && #[trigger] t@[b] == ',',
            decreases n - i,
        {
            if t[i] == ',' {
                match comma {
                    Some(k) => {
                        if !many {
                            assert(t@[k as int] == ',' && t@[i as int] == ',');
                        }
                        many = true;
                    },
                    None => {
                        comma = Some(i);
                    },
                }
            }
            i = i + 1;
        }
        if many {
            proof {
                let (a, b) = choose|a: int, b: int|
                    0 <= a < b < n && #[trigger] t@[a] == ',' && #[trigger] t@[b] == ',';
                assert forall|k: int| !#[trigger] single_comma(s@, k) by {
                    if single_comma(s@, k) {
                        assert(a == k);
                        assert(b == k);
                    }
                }
            }
            return Err(ParsePositionError::ArgumentCount);
        }
        let k = match comma {
            None => {
                proof {
                    assert forall|k: int| !#[trigger] single_comma(s@, k) by {
                        if single_comma(s@, k) {
                            assert(t@[k] == ',');
                        }
                    }
                }
                return Err(ParsePositionError::ArgumentCount);
            },
            Some(k) => k,
        };
        proof {
            assert(single_comma(s@, k as int));
            let c = choose|c: int| #[trigger] single_comma(s@, c);
            assert(c == k);
        }
        let (xa, xb) = trimmed_bounds(&t, 0, k);
        let x = match decimal_value(&t, xa, xb) {
            Some(x) => x,
            None => return Err(ParsePositionError::InvalidX),
        };
        let (ya, yb) = trimmed_bounds(&t, k + 1, n);
        let y = match decimal_value(&t, ya, yb) {
            Some(y) => y,
            None => return Err(ParsePositionError::InvalidY),
        };
        Ok(Position::new(x, y))
    }

    /// Reads a position from a list of exactly two numbers, each at most 255.
    pub fn from_vec(coordinates: Vec<u32>) -> (r: Result<Position, ParsePositionError>)
        ensures
            coordinates@.len() != 2 ==> r == Err::<Position, ParsePositionError>(
                ParsePositionError::ArgumentCount,
            ),
            coordinates@.len() == 2 && coordinates@[0] > 255 ==> r == Err::<
                Position,
                ParsePositionError,
            >(ParsePositionError::InvalidX),
            coordinates@.len() == 2 && coordinates@[0] <= 255 && coordinates@[1] > 255 ==> r
                == Err::<Position, ParsePositionError>(ParsePositionError::InvalidY),
            coordinates@.len() == 2 && coordinates@[0] <= 255 && coordinates@[1] <= 255 ==> r
                == Ok::<Position, ParsePositionError>(
                Position { x: coordinates@[0] as u8, y: coordinates@[1] as u8 },
            ),
    {
        if coordinates.len() != 2 {
            return Err(ParsePositionError::ArgumentCount);
        }
        let x = coordinates[0];
        let y = coordinates[1];
        if x > 255 {
            return Err(ParsePositionError::InvalidX);
        }
        if y > 255 {
            return Err(ParsePositionError::InvalidY);
        }
        Ok(Position::new(x as u8, y as u8))
    }
}

impl core::str::FromStr for Position {
    type Err = ParsePositionError;

    fn from_str(s: &str) -> (r: Result<Position, ParsePositionError>)
        ensures
            r == parse_position(s@),
    {
        Position::parse(s)
    }
}

} // verus!
