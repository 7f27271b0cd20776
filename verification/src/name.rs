use vstd::prelude::*;

verus! {

/// The character is one of the decimal digits `'0'` to `'9'`.
pub open spec fn is_decimal_digit(c: char) -> bool {
    48 <= (c as u32) <= 57
}

/// The value of a decimal digit.
pub open spec fn decimal_digit_value(c: char) -> int {
    (c as u32) - 48
}

/// The decimal number written by the first `n` characters of `s`, or
/// `None` where one of them is not a decimal digit.
pub open spec fn decimal_prefix(s: Seq<char>, n: int) -> Option<int>
    decreases n,
{
    if n <= 0 {
        Some(0)
    } else {
        match decimal_prefix(s, n - 1) {
            None => None,
            Some(v) => if is_decimal_digit(s[n - 1]) {
                Some(v * 10 + decimal_digit_value(s[n - 1]))
            } else {
                None
            },
        }
    }
}

/// Reading the digits of `s` from the left never goes past `u32::MAX`
/// before the first character that is not a digit.
pub open spec fn decimal_fits(s: Seq<char>) -> bool {
    forall|n: int|
        0 <= n <= s.len() ==> (#[trigger] decimal_prefix(s, n) matches Some(v) ==> v <= u32::MAX)
}

/// The number that `s` writes in decimal, or `None` where some character
/// of `s` is not a decimal digit.
pub open spec fn decimal_value(s: Seq<char>) -> Option<u32> {
    match decimal_prefix(s, s.len() as int) {
        Some(v) => Some(v as u32),
        None => None,
    }
}

/// Once a prefix holds a character that is not a digit, so does every
/// longer prefix.
pub proof fn lemma_decimal_prefix_none_stays(s: Seq<char>, a: int, b: int)
    requires
        0 <= a <= b,
        decimal_prefix(s, a) is None,
    ensures
        decimal_prefix(s, b) is None,
    decreases b - a,
{
    if a < b {
        lemma_decimal_prefix_none_stays(s, a, b - 1);
    }
}

/// The value of a decimal digit, or `None` for any other character.
fn decimal_digit(c: char) -> (r: Option<u32>)
    ensures
        r == (if is_decimal_digit(c) {
            Some(decimal_digit_value(c) as u32)
        } else {
            None::<u32>
        }),
{
    let code = c as u32;
    if 48 <= code && code <= 57 {
        Some(code - 48)
    } else {
        None
    }
}

/// Reads a sequence of decimal digits as a number; `None` where a
/// character is not a decimal digit.
pub fn vec_to_int(digits: Vec<char>) -> (r: Option<u32>)
    requires
        decimal_fits(digits@),
    ensures
        r == decimal_value(digits@),
{
    let mut ans: u32 = 0;
    let mut k: usize = 0;
    while k < digits.len()
        invariant
            k <= digits.len(),
            decimal_fits(digits@),
            decimal_prefix(digits@, k as int) == Some(ans as int),
        decreases digits.len() - k,
    {
        match decimal_digit(digits[k]) {
            None => {
                assert(decimal_prefix(digits@, k + 1) is None);
                proof {
                    lemma_decimal_prefix_none_stays(digits@, k + 1, digits@.len() as int);
                }
                return None;
            },
            Some(i) => {
                assert(decimal_prefix(digits@, k + 1) == Some(ans * 10 + i));
                ans = ans * 10 + i;
            },
        }
        k = k + 1;
    }
    Some(ans)
}

/// Whether reading the digits of `digits` stays within `u32::MAX`.
pub fn decimal_fits_u32(digits: &Vec<char>) -> (r: bool)
    ensures
        r == decimal_fits(digits@),
{
    let mut ans: u64 = 0;
    let mut k: usize = 0;
    while k < digits.len()
        invariant
            k <= digits.len(),
            ans <= u32::MAX,
            decimal_prefix(digits@, k as int) == Some(ans as int),
            forall|n: int|
                0 <= n <= k ==> (#[trigger] decimal_prefix(digits@, n) matches Some(v) ==> v
                    <= u32::MAX),
        decreases digits.len() - k,
    {
        match decimal_digit(digits[k]) {
            None => {
                assert(decimal_prefix(digits@, k + 1) is None);
                assert forall|n: int|
                    k < n <= digits@.len() implies #[trigger] decimal_prefix(digits@, n) is None by {
                    lemma_decimal_prefix_none_stays(digits@, k + 1, n);
                }
                return true;
            },
            Some(i) => {
                let next: u64 = ans * 10 + i as u64;
                assert(decimal_prefix(digits@, k + 1) == Some(next as int));
                if next > 0xffff_ffff {
                    return false;
                }
                ans = next;
            },
        }
        k = k + 1;
    }
    true
}

/// The mark after the first `q` characters of a name: the position of the
/// last `#` among them, or 10000 where there is none.
pub open spec fn id_mark(s: Seq<char>, q: int) -> int
    decreases q,
{
    if q <= 0 {
        10000
    } else if s[q - 1] == '#' {
        q - 1
    } else {
        id_mark(s, q - 1)
    }
}

/// The id characters read after the first `q` characters of a name have
/// been scanned, and whether the reading has stopped.
///
/// Character `q` is read where the mark after the first `q` characters is
/// not 10000: a NUL stops the reading, any other character is kept.
pub open spec fn id_scan(s: Seq<char>, q: int) -> (Seq<char>, bool)
    decreases q,
{
    if q <= 0 {
        (Seq::empty(), false)
    } else {
        let (kept, stopped) = id_scan(s, q - 1);
        if stopped {
            (kept, true)
        } else if id_mark(s, q) != 10000 {
            if (s[q] as u32) == 0 {
                (kept, true)
            } else {
                (kept.push(s[q]), false)
            }
        } else {
            (kept, false)
        }
    }
}

/// The characters of an NFT name that carry its id: those that follow the
/// mark, up to the first NUL, over the whole name but its first character.
/// For a name of at most 10001 characters these are the characters after
/// its first `#`, up to the first NUL after it or the end of the name
/// (`law_id_follows_first_mark`), and none where it has no `#` before its
/// last character (`law_no_mark_no_id`).
pub open spec fn id_digit_chars(name: Seq<char>) -> Seq<char> {
    id_scan(name, name.len() - 1).0
}

/// Once the reading has stopped it stays stopped with the same characters.
pub proof fn lemma_id_scan_stopped(s: Seq<char>, a: int, b: int)
    requires
        0 <= a <= b,
        id_scan(s, a).1,
    ensures
        id_scan(s, b) == id_scan(s, a),
    decreases b - a,
{
    if a < b {
        lemma_id_scan_stopped(s, a, b - 1);
    }
}

/// Position `p` holds the first `#` of the name, before its last character.
pub open spec fn first_mark_at(name: Seq<char>, p: int) -> bool {
    &&& 0 <= p < name.len() - 1
    &&& name[p] == '#'
    &&& forall|j: int| 0 <= j < p ==> name[j] != '#'
}

/// Position `e` ends the id that starts after position `p`: no NUL lies
/// between them, and `e` is the name's end or a NUL.
pub open spec fn id_end_at(name: Seq<char>, p: int, e: int) -> bool {
    &&& p + 1 <= e <= name.len()
    &&& forall|j: int| p + 1 <= j < e ==> (name[j] as u32) != 0
    &&& (e == name.len() || (name[e] as u32) == 0)
}

proof fn lemma_scan_before_mark(name: Seq<char>, p: int, q: int)
    requires
        first_mark_at(name, p),
        0 <= q <= p,
    ensures
        id_mark(name, q) == 10000,
        id_scan(name, q) == (Seq::<char>::empty(), false),
    decreases q,
{
    if q > 0 {
        lemma_scan_before_mark(name, p, q - 1);
    }
}

proof fn lemma_scan_after_mark(name: Seq<char>, p: int, e: int, q: int)
    requires
        name.len() <= 10001,
        first_mark_at(name, p),
        id_end_at(name, p, e),
        p + 1 <= q <= name.len() - 1,
    ensures
        id_mark(name, q) != 10000,
        q < e ==> id_scan(name, q) == (name.subrange(p + 1, q + 1), false),
        q >= e ==> id_scan(name, q) == (name.subrange(p + 1, e), true),
    decreases q,
{
    if q == p + 1 {
        lemma_scan_before_mark(name, p, p);
        assert(name.subrange(p + 1, p + 2) =~= Seq::<char>::empty().push(name[p + 1]));
        assert(name.subrange(p + 1, p + 1) =~= Seq::<char>::empty());
    } else {
        lemma_scan_after_mark(name, p, e, q - 1);
        if q - 1 < e {
            assert(name.subrange(p + 1, q + 1) =~= name.subrange(p + 1, q).push(name[q]));
        }
    }
}

/// For a name of at most 10001 characters whose first `#` comes before its
/// last character, the id characters are those after that `#`, up to the
/// first NUL after it or the end of the name.
pub proof fn law_id_follows_first_mark(name: Seq<char>, p: int, e: int)
    requires
        name.len() <= 10001,
        first_mark_at(name, p),
        id_end_at(name, p, e),
    ensures
        id_digit_chars(name) == name.subrange(p + 1, e),
{
    lemma_scan_after_mark(name, p, e, name.len() - 1);
}

/// A name with no `#` before its last character carries no id characters.
pub proof fn law_no_mark_no_id(name: Seq<char>)
    requires
        name.len() >= 1,
        forall|j: int| 0 <= j < name.len() - 1 ==> name[j] != '#',
    ensures
        id_digit_chars(name) == Seq::<char>::empty(),
{
    lemma_scan_without_mark(name, name.len() - 1);
}

proof fn lemma_scan_without_mark(name: Seq<char>, q: int)
    requires
        0 <= q <= name.len() - 1,
        forall|j: int| 0 <= j < name.len() - 1 ==> name[j] != '#',
    ensures
        id_mark(name, q) == 10000,
        id_scan(name, q) == (Seq::<char>::empty(), false),
    decreases q,
{
    if q > 0 {
        lemma_scan_without_mark(name, q - 1);
    }
}

/// Collects the characters of an NFT name that carry its id.
pub fn id_digits(name: &Vec<char>) -> (num_array: Vec<char>)
    requires
        name.len() >= 1,
    ensures
        num_array@ == id_digit_chars(name@),
        name.len() <= 10001 ==> forall|p: int, e: int|
            first_mark_at(name@, p) && id_end_at(name@, p, e) ==> num_array@ == name@.subrange(
                p + 1,
                e,
            ),
        (forall|j: int| 0 <= j < name.len() - 1 ==> name@[j] != '#') ==> num_array@ == Seq::<
            char,
        >::empty(),
{
    proof {
        if name.len() <= 10001 {
            assert forall|p: int, e: int|
                first_mark_at(name@, p) && id_end_at(name@, p, e) implies id_digit_chars(name@)
                == name@.subrange(p + 1, e) by {
                law_id_follows_first_mark(name@, p, e);
            }
        }
        if forall|j: int| 0 <= j < name.len() - 1 ==> name@[j] != '#' {
            law_no_mark_no_id(name@);
        }
    }
    let mut num_array: Vec<char> = Vec::new();
    let mut idx: usize = 0;
    let mut index: usize = 10000;
    while idx < name.len() - 1
        invariant_except_break
            name.len() >= 1,
            idx <= name.len() - 1,
            index == id_mark(name@, idx as int),
            id_scan(name@, idx as int) == (num_array@, false),
        ensures
            name.len() >= 1,
            num_array@ == id_digit_chars(name@),
        decreases name.len() - 1 - idx,
    {
        if name[idx] == '#' {
            index = idx;
        }
        idx = idx + 1;
        if index != 10000 {
            if name[idx] as u32 == 0 {
                assert(id_scan(name@, idx as int) == (num_array@, true));
                proof {
                    lemma_id_scan_stopped(name@, idx as int, name@.len() - 1);
                }
                break;
            }
            num_array.push(name[idx]);
        }
    }
    num_array
}

/// The id written after the `#` of an NFT name, or `None` where reading
/// it fails: an empty name, an id character that is not a decimal digit,
/// or an id above `u32::MAX`.
pub open spec fn name_id(name: Seq<char>) -> Option<u32> {
    if name.len() == 0 || !decimal_fits(id_digit_chars(name)) {
        None
    } else {
        decimal_value(id_digit_chars(name))
    }
}

/// Reads the id written after the `#` of an NFT name; `None` where reading
/// it fails.
pub fn nft_id_from_name(name: &Vec<char>) -> (r: Option<u32>)
    ensures
        r == name_id(name@),
{
    if name.len() == 0 {
        return None;
    }
    let num_array = id_digits(name);
    if !decimal_fits_u32(&num_array) {
        return None;
    }
    vec_to_int(num_array)
}

} // verus!
