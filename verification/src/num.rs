use vstd::prelude::*;

verus! {

/// A decimal digit.
pub open spec fn is_digit(c: char) -> bool {
    48 <= c as u32 && c as u32 <= 57
}

/// A character that may occur somewhere in a number token.
pub open spec fn is_num_char(c: char) -> bool {
    is_digit(c) || c == '-' || c == '+' || c == '.' || c == 'e' || c == 'E'
}

/// First index at or after `i` whose character is not a decimal digit.
pub open spec fn digits_end(s: Seq<char>, i: int) -> int
    decreases s.len() - i,
{
    if i < s.len() && is_digit(s[i]) {
        digits_end(s, i + 1)
    } else {
        i
    }
}

pub proof fn lemma_digits_end(s: Seq<char>, i: int)
    requires
        0 <= i <= s.len(),
    ensures
        i <= digits_end(s, i) <= s.len(),
        forall|k: int| i <= k < digits_end(s, i) ==> is_digit(s[k]),
        digits_end(s, i) < s.len() ==> !is_digit(s[digits_end(s, i)]),
    decreases s.len() - i,
{
    if i < s.len() && is_digit(s[i]) {
        lemma_digits_end(s, i + 1);
    }
}

/// First index at or after `i` whose character is not a number character.
pub open spec fn num_chars_end(s: Seq<char>, i: int) -> int
    decreases s.len() - i,
{
    if i < s.len() && is_num_char(s[i]) {
        num_chars_end(s, i + 1)
    } else {
        i
    }
}

pub proof fn lemma_num_chars_end(s: Seq<char>, i: int)
    requires
        0 <= i <= s.len(),
    ensures
        i <= num_chars_end(s, i) <= s.len(),
        forall|k: int| i <= k < num_chars_end(s, i) ==> is_num_char(s[k]),
        num_chars_end(s, i) < s.len() ==> !is_num_char(s[num_chars_end(s, i)]),
    decreases s.len() - i,
{
    if i < s.len() && is_num_char(s[i]) {
        lemma_num_chars_end(s, i + 1);
    }
}

/// A run of number characters, read back from inside a longer sequence,
/// scans to exactly its own end when the next character is not a number
/// character.
pub proof fn lemma_num_chars_end_exact(s: Seq<char>, i: int, t: Seq<char>)
    requires
        0 <= i,
        i + t.len() <= s.len(),
        s.subrange(i, i + t.len()) == t,
        forall|k: int| 0 <= k < t.len() ==> is_num_char(#[trigger] t[k]),
        i + t.len() < s.len() ==> !is_num_char(s[i + t.len()]),
    ensures
        num_chars_end(s, i) == i + t.len(),
    decreases t.len(),
{
    if t.len() == 0 {
        assert(num_chars_end(s, i) == i);
    } else {
        assert(s[i] == t[0]);
        assert(s.subrange(i + 1, i + 1 + t.drop_first().len()) =~= t.drop_first());
        lemma_num_chars_end_exact(s, i + 1, t.drop_first());
    }
}

/// Index just past the optional leading minus sign.
pub open spec fn num_sign_end(s: Seq<char>) -> int {
    if s.len() > 0 && s[0] == '-' {
        1
    } else {
        0
    }
}

/// Index just past the integer part: a single `0`, or a nonzero digit run.
pub open spec fn num_int_end(s: Seq<char>) -> int {
    let i = num_sign_end(s);
    if i < s.len() && s[i] == '0' {
        i + 1
    } else {
        digits_end(s, i)
    }
}

/// Index just past the optional fraction part.
pub open spec fn num_frac_end(s: Seq<char>) -> int {
    let i = num_int_end(s);
    if i < s.len() && s[i] == '.' {
        digits_end(s, i + 1)
    } else {
        i
    }
}

/// A decimal point must be followed by at least one digit.
pub open spec fn num_frac_ok(s: Seq<char>) -> bool {
    let i = num_int_end(s);
    i < s.len() && s[i] == '.' ==> digits_end(s, i + 1) > i + 1
}

/// Whether an exponent marker follows the fraction part.
pub open spec fn num_has_exp(s: Seq<char>) -> bool {
    let i = num_frac_end(s);
    i < s.len() && (s[i] == 'e' || s[i] == 'E')
}

/// Where the exponent's digit run starts, past the marker and optional sign.
pub open spec fn num_exp_digits_start(s: Seq<char>) -> int {
    let i = num_frac_end(s);
    if i + 1 < s.len() && (s[i + 1] == '+' || s[i + 1] == '-') {
        i + 2
    } else {
        i + 1
    }
}

/// Index just past the whole number token.
pub open spec fn num_end(s: Seq<char>) -> int {
    if num_has_exp(s) {
        digits_end(s, num_exp_digits_start(s))
    } else {
        num_frac_end(s)
    }
}

/// The number grammar of the document format: an optional minus sign, an
/// integer part without redundant leading zeros, an optional fraction with
/// at least one digit, and an optional signed exponent with at least one
/// digit, together spanning the whole sequence.
pub open spec fn is_json_number(s: Seq<char>) -> bool {
    &&& num_int_end(s) > num_sign_end(s)
    &&& num_frac_ok(s)
    &&& (num_has_exp(s) ==> digits_end(s, num_exp_digits_start(s)) > num_exp_digits_start(s))
    &&& num_end(s) == s.len()
}

/// A valid number token starts with a minus sign or a digit.
pub proof fn lemma_number_head(s: Seq<char>)
    requires
        is_json_number(s),
    ensures
        s.len() > 0,
        s[0] == '-' || is_digit(s[0]),
{
    let i = num_sign_end(s);
    if i == 0 {
        if !(0 < s.len() && s[0] == '0') {
            lemma_digits_end(s, 0);
            assert(is_digit(s[0]));
        }
    }
}

/// Every character of a valid number token is a number character.
pub proof fn lemma_number_chars(s: Seq<char>)
    requires
        is_json_number(s),
    ensures
        forall|k: int| 0 <= k < s.len() ==> is_num_char(#[trigger] s[k]),
{
    let i0 = num_sign_end(s);
    let i1 = num_int_end(s);
    let i2 = num_frac_end(s);
    lemma_digits_end(s, i0);
    assert(forall|k: int| i0 <= k < i1 ==> is_digit(#[trigger] s[k]));
    if i1 < s.len() && s[i1] == '.' {
        lemma_digits_end(s, i1 + 1);
    }
    assert(forall|k: int| i1 <= k < i2 ==> is_num_char(#[trigger] s[k]));
    if num_has_exp(s) {
        let ds = num_exp_digits_start(s);
        lemma_digits_end(s, ds);
        assert(forall|k: int| i2 <= k < s.len() ==> is_num_char(#[trigger] s[k]));
    }
    assert(forall|k: int| 0 <= k < s.len() ==> is_num_char(#[trigger] s[k]));
}

/// Scans the digit run that starts at `i`.
pub(crate) fn scan_digits(s: &str, n: usize, i: usize) -> (j: usize)
    requires
        n == s@.len(),
        i <= n,
    ensures
        j as int == digits_end(s@, i as int),
        i <= j <= n,
    decreases n - i,
{
    proof {
        lemma_digits_end(s@, i as int);
    }
    if i < n {
        let u = s.get_char(i) as u32;
        if 48 <= u && u <= 57 {
            return scan_digits(s, n, i + 1);
        }
    }
    i
}

/// Scans the run of number characters that starts at `i`.
pub(crate) fn scan_num_chars(s: &str, n: usize, i: usize) -> (j: usize)
    requires
        n == s@.len(),
        i <= n,
    ensures
        j as int == num_chars_end(s@, i as int),
        i <= j <= n,
    decreases n - i,
{
    proof {
        lemma_num_chars_end(s@, i as int);
    }
    if i < n {
        let c = s.get_char(i);
        let u = c as u32;
        if (48 <= u && u <= 57) || c == '-' || c == '+' || c == '.' || c == 'e' || c == 'E' {
            return scan_num_chars(s, n, i + 1);
        }
    }
    i
}

/// True exactly on the number tokens of the document grammar.
pub fn check_json_number(s: &str) -> (b: bool)
    ensures
        b == is_json_number(s@),
{
    let n = s.unicode_len();
    let i0: usize = if n > 0 && s.get_char(0) == '-' {
        1
    } else {
        0
    };
    assert(i0 as int == num_sign_end(s@));
    let i1: usize = if i0 < n && s.get_char(i0) == '0' {
        i0 + 1
    } else {
        scan_digits(s, n, i0)
    };
    assert(i1 as int == num_int_end(s@));
    if i1 == i0 {
        return false;
    }
    let i2: usize = if i1 < n && s.get_char(i1) == '.' {
        let j = scan_digits(s, n, i1 + 1);
        if j == i1 + 1 {
            return false;
        }
        j
    } else {
        i1
    };
    assert(i2 as int == num_frac_end(s@) && num_frac_ok(s@));
    let i3: usize = if i2 < n && (s.get_char(i2) == 'e' || s.get_char(i2) == 'E') {
        let ds: usize = if i2 + 1 < n && (s.get_char(i2 + 1) == '+' || s.get_char(i2 + 1) == '-') {
            i2 + 2
        } else {
            i2 + 1
        };
        assert(ds as int == num_exp_digits_start(s@));
        let j = scan_digits(s, n, ds);
        if j == ds {
            return false;
        }
        j
    } else {
        i2
    };
    assert(i3 as int == num_end(s@));
    i3 == n
}

/// A numeric field value, held as its exact number token from the document
/// format.
///
/// Geometry values travel through the library without loss: the token read
/// from a document is kept verbatim, and serializing writes it back
/// unchanged. Interpreting the token as a machine number is the caller's
/// business, outside this core.
#[derive(Debug)]
pub struct Num {
    text: String,
}

impl View for Num {
    type V = Seq<char>;

    closed spec fn view(&self) -> Seq<char> {
        self.text@
    }
}

impl Num {
    #[verifier::type_invariant]
    spec fn type_inv(self) -> bool {
        is_json_number(self.text@)
    }

    /// Accepts exactly the number tokens of the document grammar.
    pub fn from_text(text: &str) -> (r: Option<Num>)
        ensures
            match r {
                Some(n) => n@ == text@ && is_json_number(text@),
                None => !is_json_number(text@),
            },
    {
        if check_json_number(text) {
            Some(Num { text: text.to_owned() })
        } else {
            None
        }
    }

    /// The token itself; by construction a valid number token.
    pub fn as_str(&self) -> (r: &str)
        ensures
            r@ == self@,
            is_json_number(self@),
    {
        proof {
            use_type_invariant(self);
        }
        self.text.as_str()
    }
}

impl PartialEq for Num {
    fn eq(&self, other: &Self) -> (r: bool) {
        self.text == other.text
    }
}

impl vstd::std_specs::cmp::PartialEqSpecImpl for Num {
    open spec fn obeys_eq_spec() -> bool {
        true
    }

    open spec fn eq_spec(&self, other: &Self) -> bool {
        self@ == other@
    }
}

} // verus!
