use vstd::prelude::*;
use vstd::std_specs::iter::IteratorSpec;

verus! {

/// The character classes that the sensitive-data patterns are built from.
#[derive(Clone, Copy, PartialEq, Eq, Structural)]
pub enum CharClass {
    /// Letters, digits and `._%+-`: the local part of an email address.
    Local,
    /// Letters, digits, `.` and `-`: the domain of an email address.
    Domain,
    /// ASCII letters of either case.
    Letter,
    /// ASCII decimal digits.
    Digit,
    /// ASCII letters and digits.
    Alnum,
}

// The patterns are read over ASCII: a digit is `0`-`9`, a letter is `a`-`z` or
// `A`-`Z` (either case matches everywhere), and a space is one of the six ASCII
// whitespace characters. No other character is part of any match.

/// An ASCII decimal digit.
pub open spec fn is_digit(c: char) -> bool {
    '0' <= c && c <= '9'
}

/// An ASCII letter, of either case.
pub open spec fn is_letter(c: char) -> bool {
    ('a' <= c && c <= 'z') || ('A' <= c && c <= 'Z')
}

pub open spec fn is_alnum(c: char) -> bool {
    is_letter(c) || is_digit(c)
}

/// ASCII whitespace: space, tab, line feed, carriage return, vertical tab,
/// form feed.
pub open spec fn is_space(c: char) -> bool {
    c == ' ' || c == '\t' || c == '\n' || c == '\r' || c == '\x0B' || c == '\x0C'
}

pub open spec fn in_class(c: char, cls: CharClass) -> bool {
    match cls {
        CharClass::Local => is_alnum(c) || c == '.' || c == '_' || c == '%' || c == '+' || c == '-',
        CharClass::Domain => is_alnum(c) || c == '.' || c == '-',
        CharClass::Letter => is_letter(c),
        CharClass::Digit => is_digit(c),
        CharClass::Alnum => is_alnum(c),
    }
}

/// How many characters of class `cls` follow one another in `s` from position `i`.
pub open spec fn run(s: Seq<char>, i: int, cls: CharClass) -> nat
    decreases s.len() - i,
{
    if 0 <= i < s.len() && in_class(s[i], cls) {
        1 + run(s, i + 1, cls)
    } else {
        0
    }
}

/// The last `.` in `s[lo..hi)` that is followed by at least two letters.
pub open spec fn last_tld_dot(s: Seq<char>, lo: int, hi: int) -> Option<int>
    decreases hi - lo,
{
    if hi <= lo {
        None
    } else if s[hi - 1] == '.' && run(s, hi, CharClass::Letter) >= 2 {
        Some(hi - 1)
    } else {
        last_tld_dot(s, lo, hi - 1)
    }
}

pub open spec fn min_nat(a: nat, b: nat) -> nat {
    if a <= b {
        a
    } else {
        b
    }
}

/// Length of the email address that starts at `i` (0 when none does):
/// a local part, `@`, a domain, `.` and a top-level domain of two to four
/// letters, with the domain as long as a match allows.
pub open spec fn email_len(s: Seq<char>, i: int) -> nat {
    let local = run(s, i, CharClass::Local);
    let at = i + local;
    if local > 0 && at < s.len() && s[at] == '@' {
        let dom_end = at + 1 + run(s, at + 1, CharClass::Domain);
        match last_tld_dot(s, at + 2, dom_end) {
            Some(d) => (d + 1 + min_nat(run(s, d + 1, CharClass::Letter), 4) - i) as nat,
            None => 0,
        }
    } else {
        0
    }
}

/// Length of the bare mobile number that starts at `m` (0 when none does):
/// `9`, one of `1236`, then seven more digits.
pub open spec fn mobile_len(s: Seq<char>, m: int) -> nat {
    if 0 <= m && m + 1 < s.len() && s[m] == '9' && (s[m + 1] == '1' || s[m + 1] == '2' || s[m
        + 1] == '3' || s[m + 1] == '6') && run(s, m + 2, CharClass::Digit) >= 7 {
        9
    } else {
        0
    }
}

/// Length of the mobile number with country code that starts at `i` (0 when
/// none does): an optional `+`, `351`, an optional space, then a bare mobile
/// number.
pub open spec fn prefixed_phone_len(s: Seq<char>, i: int) -> nat {
    let plus: int = if 0 <= i < s.len() && s[i] == '+' { 1 } else { 0 };
    let j = i + plus;
    let k = j + 3;
    let space: int = if 0 <= k < s.len() && is_space(s[k]) { 1 } else { 0 };
    if 0 <= j && j + 2 < s.len() && s[j] == '3' && s[j + 1] == '5' && s[j + 2] == '1'
        && mobile_len(s, k + space) > 0 {
        (plus + 3 + space + 9) as nat
    } else {
        0
    }
}

/// Length of the mobile number that starts at `i` (0 when none does): the
/// country-code prefix and the space after it are optional, and taken when
/// present.
pub open spec fn phone_len(s: Seq<char>, i: int) -> nat {
    if prefixed_phone_len(s, i) > 0 {
        prefixed_phone_len(s, i)
    } else {
        mobile_len(s, i)
    }
}

/// Length of the bare nine-digit number that starts at `i` (0 when none does):
/// nine digits with no digit right before or right after them.
pub open spec fn nine_digits_len(s: Seq<char>, i: int) -> nat {
    if 0 <= i && (i == 0 || !is_digit(s[i - 1])) && run(s, i, CharClass::Digit) >= 9 && (i + 9
        == s.len() || !is_digit(s[i + 9])) {
        9
    } else {
        0
    }
}

/// Length of the IBAN-shaped token that starts at `i` (0 when none does):
/// two letters, two digits, then eleven to thirty letters or digits, as many
/// as there are.
pub open spec fn iban_len(s: Seq<char>, i: int) -> nat {
    if 0 <= i && i + 3 < s.len() && is_letter(s[i]) && is_letter(s[i + 1]) && is_digit(s[i + 2])
        && is_digit(s[i + 3]) && run(s, i + 4, CharClass::Alnum) >= 11 {
        4 + min_nat(run(s, i + 4, CharClass::Alnum), 30)
    } else {
        0
    }
}

/// Length of the sensitive match that starts at `i`, 0 when none does. The
/// patterns are tried in order and the first that matches is taken.
pub open spec fn match_len(s: Seq<char>, i: int) -> nat {
    if email_len(s, i) > 0 {
        email_len(s, i)
    } else if phone_len(s, i) > 0 {
        phone_len(s, i)
    } else if nine_digits_len(s, i) > 0 {
        nine_digits_len(s, i)
    } else {
        iban_len(s, i)
    }
}

/// Whether some sensitive pattern matches anywhere in `s`.
pub open spec fn has_pii(s: Seq<char>) -> bool {
    exists|i: int| 0 <= i < s.len() && #[trigger] match_len(s, i) > 0
}

pub open spec fn placeholder() -> Seq<char> {
    seq!['[', 'D', 'A', 'D', 'O', ' ', 'P', 'R', 'O', 'T', 'E', 'G', 'I', 'D', 'O', ']']
}

/// `s` from position `i` on, with each match, scanned left to right, replaced
/// by the placeholder.
pub open spec fn redacted_from(s: Seq<char>, i: int) -> Seq<char>
    decreases s.len() - i,
    via redacted_from_decreases
{
    if i < 0 || i >= s.len() {
        Seq::empty()
    } else if match_len(s, i) > 0 {
        placeholder() + redacted_from(s, i + match_len(s, i))
    } else {
        seq![s[i]] + redacted_from(s, i + 1)
    }
}

#[via_fn]
proof fn redacted_from_decreases(s: Seq<char>, i: int) {
    if 0 <= i < s.len() {
        lemma_match_len_bound(s, i);
    }
}

/// The sanitized copy of `s`.
pub open spec fn redacted(s: Seq<char>) -> Seq<char> {
    redacted_from(s, 0)
}

pub proof fn lemma_run_bound(s: Seq<char>, i: int, cls: CharClass)
    ensures
        run(s, i, cls) <= if i < s.len() { s.len() - i } else { 0 },
        run(s, i, cls) > 0 ==> 0 <= i < s.len(),
    decreases s.len() - i,
{
    if 0 <= i < s.len() && in_class(s[i], cls) {
        lemma_run_bound(s, i + 1, cls);
    }
}

pub proof fn lemma_match_len_bound(s: Seq<char>, i: int)
    requires
        0 <= i < s.len(),
    ensures
        i + match_len(s, i) <= s.len(),
{
    let local = run(s, i, CharClass::Local);
    let at = i + local;
    if local > 0 && at < s.len() && s[at] == '@' {
        let dom_end = at + 1 + run(s, at + 1, CharClass::Domain);
        lemma_last_tld_dot(s, at + 2, dom_end);
        match last_tld_dot(s, at + 2, dom_end) {
            Some(d) => lemma_run_bound(s, d + 1, CharClass::Letter),
            None => {},
        }
    }
    let plus: int = if s[i] == '+' { 1 } else { 0 };
    let k = i + plus + 3;
    let m = k + if 0 <= k < s.len() && is_space(s[k]) { 1int } else { 0 };
    lemma_run_bound(s, m + 2, CharClass::Digit);
    lemma_run_bound(s, i + 2, CharClass::Digit);
    lemma_run_bound(s, i, CharClass::Digit);
    lemma_run_bound(s, i + 4, CharClass::Alnum);
}

pub proof fn lemma_last_tld_dot(s: Seq<char>, lo: int, hi: int)
    ensures
        last_tld_dot(s, lo, hi) matches Some(d) ==> lo <= d < hi && s[d] == '.' && run(
            s,
            d + 1,
            CharClass::Letter,
        ) >= 2,
    decreases hi - lo,
{
    if hi > lo && !(s[hi - 1] == '.' && run(s, hi, CharClass::Letter) >= 2) {
        lemma_last_tld_dot(s, lo, hi - 1);
    }
}

/// The first character of any match is one of letter, digit, `.`, `_`, `%`,
/// `+`, `-`: never the placeholder's opening bracket.
proof fn lemma_match_starts_off_bracket(s: Seq<char>, i: int)
    requires
        0 <= i < s.len(),
        match_len(s, i) > 0,
    ensures
        s[i] != '[',
{
    if email_len(s, i) > 0 {
        assert(run(s, i, CharClass::Local) > 0);
    } else if nine_digits_len(s, i) > 0 {
        assert(run(s, i, CharClass::Digit) > 0);
    }
}

/// Text from `i` on comes out of redaction unchanged exactly when no pattern
/// matches at any position from `i` on.
pub proof fn lemma_unchanged_iff_clean(s: Seq<char>, i: int)
    requires
        0 <= i <= s.len(),
    ensures
        redacted_from(s, i) == s.subrange(i, s.len() as int) <==> forall|k: int|
            i <= k < s.len() ==> #[trigger] match_len(s, k) == 0,
    decreases s.len() - i,
{
    if i < s.len() {
        lemma_unchanged_iff_clean(s, i + 1);
        let rest = s.subrange(i + 1, s.len() as int);
        assert(s.subrange(i, s.len() as int) =~= seq![s[i]] + rest);
        if match_len(s, i) > 0 {
            lemma_match_starts_off_bracket(s, i);
            assert((placeholder() + redacted_from(s, i + match_len(s, i)))[0] == '[');
        } else {
            if redacted_from(s, i) == s.subrange(i, s.len() as int) {
                assert(redacted_from(s, i + 1) =~= (seq![s[i]] + redacted_from(s, i + 1)).drop_first());
                assert(rest =~= (seq![s[i]] + rest).drop_first());
            }
        }
    } else {
        assert(s.subrange(i, s.len() as int) =~= Seq::<char>::empty());
    }
}

/// A message in which no pattern matches is classified as clean and comes
/// out of redaction unchanged.
pub proof fn lemma_clean_text_unchanged(s: Seq<char>)
    requires
        !has_pii(s),
    ensures
        redacted(s) == s,
{
    lemma_unchanged_iff_clean(s, 0);
    assert(s.subrange(0, s.len() as int) =~= s);
}

/// Positions `i..j` where no pattern matches are copied through as they are.
proof fn lemma_copy_clean_span(s: Seq<char>, i: int, j: int)
    requires
        0 <= i <= j <= s.len(),
        forall|k: int| i <= k < j ==> #[trigger] match_len(s, k) == 0,
    ensures
        redacted_from(s, i) == s.subrange(i, j) + redacted_from(s, j),
    decreases j - i,
{
    if i < j {
        lemma_copy_clean_span(s, i + 1, j);
        assert(s.subrange(i, j) =~= seq![s[i]] + s.subrange(i + 1, j));
    } else {
        assert(s.subrange(i, j) =~= Seq::<char>::empty());
    }
}

/// A message in which a pattern matches is classified as sensitive, and the
/// leftmost match is replaced, where it stood, by the placeholder: the
/// sanitized text is the clean prefix, the placeholder, then the redacted
/// remainder after the match.
pub proof fn lemma_match_is_replaced(s: Seq<char>, i: int)
    requires
        0 <= i < s.len(),
        match_len(s, i) > 0,
        forall|k: int| 0 <= k < i ==> #[trigger] match_len(s, k) == 0,
    ensures
        has_pii(s),
        redacted(s) == s.subrange(0, i) + placeholder() + redacted_from(s, i + match_len(s, i)),
{
    lemma_copy_clean_span(s, 0, i);
    assert(s.subrange(0, i) + placeholder() + redacted_from(s, i + match_len(s, i)) =~= s.subrange(
        0,
        i,
    ) + (placeholder() + redacted_from(s, i + match_len(s, i))));
}

/// Redacting the sanitized text again leaves it unchanged exactly when no
/// pattern matches in it.
pub proof fn lemma_redaction_idempotent(s: Seq<char>)
    ensures
        redacted(redacted(s)) == redacted(s) <==> !has_pii(redacted(s)),
{
    let t = redacted(s);
    lemma_unchanged_iff_clean(t, 0);
    assert(t.subrange(0, t.len() as int) =~= t);
}

/// No character of the placeholder is `@` or a digit.
proof fn lemma_placeholder_chars(j: int)
    requires
        0 <= j < placeholder().len(),
    ensures
        placeholder()[j] != '@',
        !is_digit(placeholder()[j]),
{
    if j == 0 {
    } else if j == 1 {
    } else if j == 2 {
    } else if j == 3 {
    } else if j == 4 {
    } else if j == 5 {
    } else if j == 6 {
    } else if j == 7 {
    } else if j == 8 {
    } else if j == 9 {
    } else if j == 10 {
    } else if j == 11 {
    } else if j == 12 {
    } else if j == 13 {
    } else if j == 14 {
    } else {
        assert(j == 15);
    }
}

/// The placeholder itself holds no sensitive pattern.
pub proof fn lemma_placeholder_is_clean()
    ensures
        !has_pii(placeholder()),
        redacted(placeholder()) == placeholder(),
{
    let p = placeholder();
    assert forall|k: int| 0 <= k < p.len() implies #[trigger] match_len(p, k) == 0 by {
        lemma_placeholder_chars(k);
        let at = k + run(p, k, CharClass::Local);
        lemma_run_bound(p, k, CharClass::Local);
        if at < p.len() {
            lemma_placeholder_chars(at);
        }
        let plus: int = if p[k] == '+' { 1 } else { 0 };
        if k + plus < p.len() {
            lemma_placeholder_chars(k + plus);
        }
        if k + 2 < p.len() {
            lemma_placeholder_chars(k + 2);
        }
    }
    lemma_clean_text_unchanged(p);
}

fn class_has(c: char, cls: CharClass) -> (r: bool)
    ensures
        r == in_class(c, cls),
{
    let letter = ('a' <= c && c <= 'z') || ('A' <= c && c <= 'Z');
    let alnum = letter || ('0' <= c && c <= '9');
    match cls {
        CharClass::Local => alnum || c == '.' || c == '_' || c == '%' || c == '+' || c == '-',
        CharClass::Domain => alnum || c == '.' || c == '-',
        CharClass::Letter => letter,
        CharClass::Digit => '0' <= c && c <= '9',
        CharClass::Alnum => alnum,
    }
}

fn run_len(s: &Vec<char>, i: usize, cls: CharClass) -> (r: usize)
    requires
        i <= s.len(),
    ensures
        r == run(s@, i as int, cls),
        i + r <= s.len(),
{
    let mut j: usize = i;
    while j < s.len() && class_has(s[j], cls)
        invariant
            i <= j <= s.len(),
            run(s@, i as int, cls) == (j - i) + run(s@, j as int, cls),
        decreases s.len() - j,
    {
        j += 1;
    }
    j - i
}

fn find_tld_dot(s: &Vec<char>, lo: usize, hi: usize) -> (r: Option<usize>)
    requires
        lo <= hi <= s.len(),
    ensures
        match r {
            Some(d) => last_tld_dot(s@, lo as int, hi as int) == Some(d as int),
            None => last_tld_dot(s@, lo as int, hi as int) is None,
        },
{
    let mut h: usize = hi;
    while h > lo
        invariant
            lo <= h <= hi,
            hi <= s.len(),
            last_tld_dot(s@, lo as int, hi as int) == last_tld_dot(s@, lo as int, h as int),
        decreases h,
    {
        if s[h - 1] == '.' && run_len(s, h, CharClass::Letter) >= 2 {
            return Some(h - 1);
        }
        h -= 1;
    }
    None
}

fn email_at(s: &Vec<char>, i: usize) -> (r: usize)
    requires
        i < s.len(),
    ensures
        r == email_len(s@, i as int),
{
    let local = run_len(s, i, CharClass::Local);
    let at = i + local;
    if local > 0 && at < s.len() && s[at] == '@' {
        let dom_end = at + 1 + run_len(s, at + 1, CharClass::Domain);
        if dom_end - at < 2 {
            return 0;
        }
        match find_tld_dot(s, at + 2, dom_end) {
            Some(d) => {
                proof {
                    lemma_last_tld_dot(s@, at + 2, dom_end as int);
                }
                let tld = run_len(s, d + 1, CharClass::Letter);
                let tld = if tld <= 4 {
                    tld
                } else {
                    4
                };
                d + 1 + tld - i
            },
            None => 0,
        }
    } else {
        0
    }
}

fn mobile_at(s: &Vec<char>, m: usize) -> (r: usize)
    requires
        m <= s.len(),
    ensures
        r == mobile_len(s@, m as int),
{
    if s.len() - m > 1 && s[m] == '9' && (s[m + 1] == '1' || s[m + 1] == '2' || s[m + 1] == '3'
        || s[m + 1] == '6') && run_len(s, m + 2, CharClass::Digit) >= 7 {
        9
    } else {
        0
    }
}

fn phone_at(s: &Vec<char>, i: usize) -> (r: usize)
    requires
        i < s.len(),
    ensures
        r == phone_len(s@, i as int),
{
    let plus: usize = if s[i] == '+' {
        1
    } else {
        0
    };
    let j = i + plus;
    if s.len() - j > 3 && s[j] == '3' && s[j + 1] == '5' && s[j + 2] == '1' {
        let k = j + 3;
        let space: usize = if s[k] == ' ' || s[k] == '\t' || s[k] == '\n' || s[k] == '\r' || s[k]
            == '\x0B' || s[k] == '\x0C' {
            1
        } else {
            0
        };
        if mobile_at(s, k + space) > 0 {
            return plus + 3 + space + 9;
        }
    }
    mobile_at(s, i)
}

fn nine_digits_at(s: &Vec<char>, i: usize) -> (r: usize)
    requires
        i < s.len(),
    ensures
        r == nine_digits_len(s@, i as int),
{
    if i > 0 && class_has(s[i - 1], CharClass::Digit) {
        return 0;
    }
    if run_len(s, i, CharClass::Digit) < 9 {
        return 0;
    }
    if i + 9 < s.len() && class_has(s[i + 9], CharClass::Digit) {
        return 0;
    }
    9
}

fn iban_at(s: &Vec<char>, i: usize) -> (r: usize)
    requires
        i < s.len(),
    ensures
        r == iban_len(s@, i as int),
{
    if s.len() - i > 3 && class_has(s[i], CharClass::Letter) && class_has(
        s[i + 1],
        CharClass::Letter,
    ) && class_has(s[i + 2], CharClass::Digit) && class_has(s[i + 3], CharClass::Digit) {
        let rest = run_len(s, i + 4, CharClass::Alnum);
        if rest < 11 {
            0
        } else if rest <= 30 {
            4 + rest
        } else {
            34
        }
    } else {
        0
    }
}

fn match_at(s: &Vec<char>, i: usize) -> (r: usize)
    requires
        i < s.len(),
    ensures
        r == match_len(s@, i as int),
        i + r <= s.len(),
{
    proof {
        lemma_match_len_bound(s@, i as int);
    }
    let e = email_at(s, i);
    if e > 0 {
        return e;
    }
    let p = phone_at(s, i);
    if p > 0 {
        return p;
    }
    let n = nine_digits_at(s, i);
    if n > 0 {
        return n;
    }
    iban_at(s, i)
}

fn push_placeholder(out: &mut Vec<char>)
    ensures
        final(out)@ == old(out)@ + placeholder(),
{
    let mut p: Vec<char> = vec!['[', 'D', 'A', 'D', 'O', ' ', 'P', 'R', 'O', 'T', 'E', 'G', 'I', 'D', 'O', ']'];
    assert(p@ =~= placeholder());
    out.append(&mut p);
}

/// Scans `s` left to right, replacing each match by the placeholder; also
/// tells whether any pattern matches anywhere in `s`.
pub fn redact_chars(s: &Vec<char>) -> (r: (Vec<char>, bool))
    ensures
        r.0@ == redacted(s@),
        r.1 == has_pii(s@),
{
    let mut out: Vec<char> = Vec::new();
    let mut found = false;
    let mut i: usize = 0;
    while i < s.len()
        invariant
            i <= s.len(),
            out@ + redacted_from(s@, i as int) == redacted(s@),
            !found ==> forall|k: int| 0 <= k < i ==> match_len(s@, k) == 0,
            found ==> has_pii(s@),
        decreases s.len() - i,
    {
        let n = match_at(s, i);
        let ghost before = out@;
        if n > 0 {
            push_placeholder(&mut out);
            assert(before + redacted_from(s@, i as int) =~= out@ + redacted_from(s@, i + n));
            found = true;
            i = i + n;
        } else {
            out.push(s[i]);
            assert(before + redacted_from(s@, i as int) =~= out@ + redacted_from(s@, i + 1));
            i += 1;
        }
    }
    assert(out@ + redacted_from(s@, i as int) =~= out@);
    (out, found)
}

/// The characters of `s`, in order.
pub(crate) fn chars_of(s: &str) -> (r: Vec<char>)
    ensures
        r@ == s@,
{
    broadcast use vstd::string::axiom_spec_iter, vstd::string::next_postcondition;

    let mut it = s.chars();
    let mut v: Vec<char> = Vec::new();
    loop
        invariant
            v@ + it.remaining() == s@,
            it.decrease() is Some,
        ensures
            v@ == s@,
        decreases it.decrease()->0,
    {
        match it.next() {
            Some(c) => {
                v.push(c);
            },
            None => {
                break;
            },
        }
    }
    v
}

/// Relies on `String`'s `FromIterator<&char>`: the string made of the characters of `v`, in order.
#[verifier::external_body]
pub(crate) fn string_of(v: &Vec<char>) -> (r: String)
    ensures
        r@ == v@,
{
    v.iter().collect()
}

/// The outcome of running the redactor over one message.
pub struct Redaction {
    /// Whether any sensitive pattern matched anywhere in the message.
    pub contains_pii: bool,
    /// The message with every match replaced by the placeholder.
    pub sanitized: String,
}

/// Classifies `message` and produces its sanitized copy.
pub fn redact(message: &str) -> (r: Redaction)
    ensures
        r.contains_pii == has_pii(message@),
        r.sanitized@ == redacted(message@),
{
    let chars = chars_of(message);
    let (out, found) = redact_chars(&chars);
    Redaction { contains_pii: found, sanitized: string_of(&out) }
}

} // verus!
