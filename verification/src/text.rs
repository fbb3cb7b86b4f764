//! Character-level text utilities shared by the calendar, Feishu and checklist logic.
//!
//! Every string is modelled by its view, a `Seq<char>`.
use vstd::prelude::*;
use vstd::string::*;

verus! {

/// Unicode `White_Space` characters, the set that `str::trim` removes.
pub open spec fn is_ws(c: char) -> bool {
    let u = c as u32;
    ||| (0x9 <= u && u <= 0xD)
    ||| u == 0x20
    ||| u == 0x85
    ||| u == 0xA0
    ||| u == 0x1680
    ||| (0x2000 <= u && u <= 0x200A)
    ||| u == 0x2028
    ||| u == 0x2029
    ||| u == 0x202F
    ||| u == 0x205F
    ||| u == 0x3000
}

/// Text with no backslash, carriage return or line feed.
pub open spec fn plain_line(s: Seq<char>) -> bool {
    forall|i: int| 0 <= i < s.len() ==> s[i] != '\\' && s[i] != '\r' && s[i] != '\n'
}

/// The views of a sequence of strings.
pub open spec fn strings_view(v: Seq<String>) -> Seq<Seq<char>> {
    v.map_values(|x: String| x@)
}

/// `s` with its leading white space removed.
pub open spec fn trim_start_spec(s: Seq<char>) -> Seq<char>
    decreases s.len(),
{
    if s.len() > 0 && is_ws(s[0]) {
        trim_start_spec(s.drop_first())
    } else {
        s
    }
}

/// `s` with its trailing white space removed.
pub open spec fn trim_end_spec(s: Seq<char>) -> Seq<char>
    decreases s.len(),
{
    if s.len() > 0 && is_ws(s.last()) {
        trim_end_spec(s.drop_last())
    } else {
        s
    }
}

/// `s` with white space removed at both ends.
pub open spec fn trim_spec(s: Seq<char>) -> Seq<char> {
    trim_end_spec(trim_start_spec(s))
}

/// Text without white space at its ends is its own trim.
pub proof fn lemma_trim_no_ws(s: Seq<char>)
    requires
        s.len() == 0 || (!is_ws(s[0]) && !is_ws(s.last())),
    ensures
        trim_spec(s) == s,
{
    assert(trim_start_spec(s) == s);
}

/// The trimmed text is a run of `s` that starts and ends with a character
/// that is not white space.
pub proof fn lemma_trim_ends(s: Seq<char>)
    ensures
        trim_spec(s).len() > 0 ==> !is_ws(trim_spec(s)[0]) && !is_ws(trim_spec(s).last()),
{
    lemma_trim_start_first(s);
    lemma_trim_end_prefix(trim_start_spec(s));
    lemma_trim_end_last(trim_start_spec(s));
}

proof fn lemma_trim_start_first(s: Seq<char>)
    ensures
        trim_start_spec(s).len() > 0 ==> !is_ws(trim_start_spec(s)[0]),
    decreases s.len(),
{
    if s.len() > 0 && is_ws(s[0]) {
        lemma_trim_start_first(s.drop_first());
    }
}

pub proof fn lemma_trim_end_prefix(s: Seq<char>)
    ensures
        trim_end_spec(s).len() <= s.len(),
        trim_end_spec(s) == s.subrange(0, trim_end_spec(s).len() as int),
    decreases s.len(),
{
    if s.len() > 0 && is_ws(s.last()) {
        lemma_trim_end_prefix(s.drop_last());
        assert(s.drop_last().subrange(0, trim_end_spec(s).len() as int) =~= s.subrange(
            0,
            trim_end_spec(s).len() as int,
        ));
    } else {
        assert(s.subrange(0, s.len() as int) =~= s);
    }
}

proof fn lemma_trim_end_last(s: Seq<char>)
    ensures
        trim_end_spec(s).len() > 0 ==> !is_ws(trim_end_spec(s).last()),
    decreases s.len(),
{
    if s.len() > 0 && is_ws(s.last()) {
        lemma_trim_end_last(s.drop_last());
    }
}

/// A character absent from a text is absent from its trimmed text.
pub proof fn lemma_trim_keeps_absent(s: Seq<char>, c: char)
    requires
        forall|i: int| 0 <= i < s.len() ==> s[i] != c,
    ensures
        forall|i: int| 0 <= i < trim_spec(s).len() ==> trim_spec(s)[i] != c,
{
    lemma_trim_start_suffix(s);
    let t = trim_start_spec(s);
    let k = s.len() - t.len();
    assert forall|i: int| 0 <= i < t.len() implies t[i] != c by {
        assert(t[i] == s[k + i]);
    }
    lemma_trim_end_prefix(t);
    assert forall|i: int| 0 <= i < trim_spec(s).len() implies trim_spec(s)[i] != c by {
        assert(trim_spec(s)[i] == t[i]);
    }
}

proof fn lemma_trim_start_suffix(s: Seq<char>)
    ensures
        trim_start_spec(s).len() <= s.len(),
        trim_start_spec(s) == s.subrange(s.len() - trim_start_spec(s).len(), s.len() as int),
    decreases s.len(),
{
    if s.len() > 0 && is_ws(s[0]) {
        lemma_trim_start_suffix(s.drop_first());
        let t = trim_start_spec(s);
        assert(s.drop_first().subrange(s.drop_first().len() - t.len(), s.drop_first().len() as int)
            =~= s.subrange(s.len() - t.len(), s.len() as int));
    } else {
        assert(s.subrange(0, s.len() as int) =~= s);
    }
}

/// Trimming is idempotent.
pub proof fn lemma_trim_idempotent(s: Seq<char>)
    ensures
        trim_spec(trim_spec(s)) == trim_spec(s),
{
    lemma_trim_ends(s);
    lemma_trim_no_ws(trim_spec(s));
}

/// Trailing white space after trimmed text is trimmed away again.
pub proof fn lemma_trim_trailing_ws(t: Seq<char>, w: Seq<char>)
    requires
        t.len() > 0,
        !is_ws(t[0]),
        !is_ws(t.last()),
        forall|i: int| 0 <= i < w.len() ==> is_ws(#[trigger] w[i]),
    ensures
        trim_spec(t + w) == t,
    decreases w.len(),
{
    assert((t + w)[0] == t[0]);
    assert(trim_start_spec(t + w) == t + w);
    lemma_trim_end_ws_suffix(t, w);
}

proof fn lemma_trim_end_ws_suffix(t: Seq<char>, w: Seq<char>)
    requires
        t.len() > 0,
        !is_ws(t.last()),
        forall|i: int| 0 <= i < w.len() ==> is_ws(#[trigger] w[i]),
    ensures
        trim_end_spec(t + w) == t,
    decreases w.len(),
{
    if w.len() == 0 {
        assert(t + w =~= t);
    } else {
        assert((t + w).last() == w.last());
        assert((t + w).drop_last() =~= t + w.drop_last());
        lemma_trim_end_ws_suffix(t, w.drop_last());
    }
}

/// The first occurrence at or after `i` is at `k` when `pat` occurs at `k` and
/// nowhere from `i` on before it.
pub proof fn lemma_find_from_first(s: Seq<char>, pat: Seq<char>, i: int, k: int)
    requires
        0 <= i <= k,
        occurs_at(s, pat, k),
        forall|j: int| i <= j < k ==> !occurs_at(s, pat, j),
    ensures
        find_from(s, pat, i) == Some(k),
    decreases k - i,
{
    if i < k {
        lemma_find_from_first(s, pat, i + 1, k);
    }
}

/// The first `c` at or after `i` is at `k` when `s[k]` is `c` and no earlier
/// character from `i` on is.
pub proof fn lemma_find_char_first(s: Seq<char>, c: char, i: int, k: int)
    requires
        0 <= i <= k < s.len(),
        s[k] == c,
        forall|j: int| i <= j < k ==> s[j] != c,
    ensures
        find_char_from(s, c, i) == Some(k),
    decreases k - i,
{
    if i < k {
        lemma_find_char_first(s, c, i + 1, k);
    }
}

/// Splitting `a`, `c`, `b` at the first `c` gives `a` and `b` when `a` holds no `c`.
pub proof fn lemma_split_once_at(a: Seq<char>, c: char, b: Seq<char>)
    requires
        forall|j: int| 0 <= j < a.len() ==> a[j] != c,
    ensures
        split_once_spec(a + seq![c] + b, c) == Some((a, b)),
{
    let s = a + seq![c] + b;
    lemma_find_char_first(s, c, 0, a.len() as int);
    assert(s.subrange(0, a.len() as int) =~= a);
    assert(s.subrange(a.len() as int + 1, s.len() as int) =~= b);
}

/// No `c` from `i` on: the search finds none.
pub proof fn lemma_find_char_none(s: Seq<char>, c: char, i: int)
    requires
        0 <= i,
        forall|j: int| 0 <= j < s.len() ==> s[j] != c,
    ensures
        find_char_from(s, c, i) is None,
    decreases s.len() - i,
{
    if i < s.len() {
        lemma_find_char_none(s, c, i + 1);
    }
}

/// Splitting at `c` a text joined by `c` splits each side.
pub proof fn lemma_split_concat(a: Seq<char>, c: char, b: Seq<char>)
    ensures
        split_char_spec(a + seq![c] + b, c) == split_char_spec(a, c) + split_char_spec(b, c),
    decreases a.len(),
{
    let s = a + seq![c] + b;
    lemma_find_char_from_range(a, c, 0);
    match find_char_spec(a, c) {
        None => {
            lemma_find_char_first(s, c, 0, a.len() as int);
            assert(s.subrange(0, a.len() as int) =~= a);
            assert(s.subrange(a.len() as int + 1, s.len() as int) =~= b);
            assert(split_char_spec(a, c) == seq![a]);
        },
        Some(k) => {
            let a1 = a.subrange(k + 1, a.len() as int);
            lemma_find_char_first(s, c, 0, k);
            assert(s.subrange(0, k) =~= a.subrange(0, k));
            assert(s.subrange(k + 1, s.len() as int) =~= a1 + seq![c] + b);
            lemma_split_concat(a1, c, b);
            assert(split_char_spec(a, c) == seq![a.subrange(0, k)] + split_char_spec(a1, c));
            assert(seq![a.subrange(0, k)] + (split_char_spec(a1, c) + split_char_spec(b, c)) =~= seq![
                a.subrange(0, k),
            ] + split_char_spec(a1, c) + split_char_spec(b, c));
        },
    }
}

/// The parts of a split hold no character the text does not hold.
pub proof fn lemma_split_parts_lack(s: Seq<char>, c: char, d: char)
    requires
        forall|j: int| 0 <= j < s.len() ==> s[j] != d,
    ensures
        forall|i: int, j: int|
            0 <= i < split_char_spec(s, c).len() && 0 <= j < split_char_spec(s, c)[i].len()
                ==> split_char_spec(s, c)[i][j] != d,
    decreases s.len(),
{
    lemma_find_char_from_range(s, c, 0);
    match find_char_spec(s, c) {
        None => {},
        Some(k) => {
            let rest = s.subrange(k + 1, s.len() as int);
            lemma_split_parts_lack(rest, c, d);
            let parts = split_char_spec(s, c);
            assert(parts == seq![s.subrange(0, k)] + split_char_spec(rest, c));
            assert forall|i: int, j: int|
                0 <= i < parts.len() && 0 <= j < parts[i].len() implies parts[i][j] != d by {
                if i == 0 {
                    assert(parts[0][j] == s[j]);
                } else {
                    assert(parts[i] == split_char_spec(rest, c)[i - 1]);
                }
            }
        },
    }
}

/// The parts of a split at `c` hold no `c`.
pub proof fn lemma_split_parts_lack_sep(s: Seq<char>, c: char)
    ensures
        forall|i: int, j: int|
            0 <= i < split_char_spec(s, c).len() && 0 <= j < split_char_spec(s, c)[i].len()
                ==> split_char_spec(s, c)[i][j] != c,
    decreases s.len(),
{
    lemma_find_char_from_range(s, c, 0);
    match find_char_spec(s, c) {
        None => {},
        Some(k) => {
            let rest = s.subrange(k + 1, s.len() as int);
            lemma_split_parts_lack_sep(rest, c);
            let parts = split_char_spec(s, c);
            assert(parts == seq![s.subrange(0, k)] + split_char_spec(rest, c));
            assert forall|i: int, j: int|
                0 <= i < parts.len() && 0 <= j < parts[i].len() implies parts[i][j] != c by {
                if i == 0 {
                    assert(parts[0][j] == s[j]);
                } else {
                    assert(parts[i] == split_char_spec(rest, c)[i - 1]);
                }
            }
        },
    }
}

/// Joining the parts of a split with the separator gives the text back.
pub proof fn lemma_join_split(s: Seq<char>, c: char)
    ensures
        join_spec(split_char_spec(s, c), seq![c]) == s,
    decreases s.len(),
{
    lemma_find_char_from_range(s, c, 0);
    match find_char_spec(s, c) {
        None => {},
        Some(k) => {
            let head = s.subrange(0, k);
            let rest = s.subrange(k + 1, s.len() as int);
            lemma_join_split(rest, c);
            let parts = seq![head] + split_char_spec(rest, c);
            lemma_split_nonempty_parts(rest, c);
            lemma_join_front_parts(parts, seq![c]);
            assert(parts[0] == head);
            assert(parts.drop_first() =~= split_char_spec(rest, c));
            assert(head + seq![c] + rest =~= s);
        },
    }
}

/// A split has at least one part.
pub proof fn lemma_split_nonempty_parts(s: Seq<char>, c: char)
    ensures
        split_char_spec(s, c).len() >= 1,
    decreases s.len(),
{
    lemma_find_char_from_range(s, c, 0);
    match find_char_spec(s, c) {
        None => {},
        Some(k) => {
            lemma_split_nonempty_parts(s.subrange(k + 1, s.len() as int), c);
        },
    }
}

/// Parts without `c`, joined with `c`, split at `c` into the same parts.
pub proof fn lemma_split_join_char(parts: Seq<Seq<char>>, c: char)
    requires
        parts.len() >= 1,
        forall|i: int, j: int| 0 <= i < parts.len() && 0 <= j < parts[i].len() ==> parts[i][j] != c,
    ensures
        split_char_spec(join_spec(parts, seq![c]), c) == parts,
    decreases parts.len(),
{
    let sep = seq![c];
    if parts.len() == 1 {
        lemma_find_char_none(parts[0], c, 0);
        assert(split_char_spec(parts[0], c) == seq![parts[0]]);
        assert(seq![parts[0]] =~= parts);
    } else {
        lemma_join_front_parts(parts, sep);
        let rest = parts.drop_first();
        assert forall|i: int, j: int| 0 <= i < rest.len() && 0 <= j < rest[i].len() implies rest[i][j] != c by {
            assert(rest[i] == parts[i + 1]);
        }
        lemma_split_join_char(rest, c);
        let s = join_spec(parts, sep);
        let k = parts[0].len() as int;
        assert(s == parts[0] + sep + join_spec(rest, sep));
        assert forall|j: int| 0 <= j < k implies s[j] != c by {
            assert(s[j] == parts[0][j]);
        }
        lemma_find_char_first(s, c, 0, k);
        assert(s.subrange(0, k) =~= parts[0]);
        assert(s.subrange(k + 1, s.len() as int) =~= join_spec(rest, sep));
        assert(seq![parts[0]] + rest =~= parts);
    }
}

/// The decimal digits of a number begin with a digit.
pub proof fn lemma_nat_decimal_first_digit(n: nat)
    ensures
        nat_decimal(n).len() >= 1,
        is_digit(nat_decimal(n)[0]),
    decreases n,
{
    if n >= 10 {
        lemma_nat_decimal_first_digit((n / 10) as nat);
        assert(nat_decimal(n)[0] == nat_decimal((n / 10) as nat)[0]);
    }
}

/// Decimal digits are digits.
pub proof fn lemma_nat_decimal_digits(n: nat)
    ensures
        all_digits(nat_decimal(n)),
    decreases n,
{
    if n >= 10 {
        lemma_nat_decimal_digits((n / 10) as nat);
        let x = nat_decimal(n);
        assert forall|i: int| 0 <= i < x.len() implies is_digit(#[trigger] x[i]) by {
            if i < x.len() - 1 {
                assert(x[i] == nat_decimal((n / 10) as nat)[i]);
            }
        }
    }
}

/// Different numbers have different decimal digits.
pub proof fn lemma_nat_decimal_injective(a: nat, b: nat)
    requires
        nat_decimal(a) == nat_decimal(b),
    ensures
        a == b,
    decreases a,
{
    lemma_nat_decimal_first_digit(a);
    lemma_nat_decimal_first_digit(b);
    if a < 10 && b < 10 {
        assert(nat_decimal(a)[0] == digit_char(a as int));
        assert(nat_decimal(b)[0] == digit_char(b as int));
    } else if a < 10 {
        lemma_nat_decimal_first_digit((b / 10) as nat);
        assert(nat_decimal(b).len() >= 2);
    } else if b < 10 {
        lemma_nat_decimal_first_digit((a / 10) as nat);
        assert(nat_decimal(a).len() >= 2);
    } else {
        let x = nat_decimal(a);
        assert(x.last() == digit_char((a % 10) as int));
        assert(nat_decimal(b).last() == digit_char((b % 10) as int));
        assert(x.drop_last() =~= nat_decimal((a / 10) as nat));
        assert(nat_decimal(b).drop_last() =~= nat_decimal((b / 10) as nat));
        lemma_nat_decimal_injective((a / 10) as nat, (b / 10) as nat);
    }
}

/// Different numbers have different decimal texts.
pub proof fn lemma_int_decimal_injective(a: int, b: int)
    requires
        int_decimal(a) == int_decimal(b),
    ensures
        a == b,
{
    if a < 0 && b < 0 {
        assert(int_decimal(a).drop_first() =~= nat_decimal((-a) as nat));
        assert(int_decimal(b).drop_first() =~= nat_decimal((-b) as nat));
        lemma_nat_decimal_injective((-a) as nat, (-b) as nat);
    } else if a < 0 {
        lemma_nat_decimal_first_digit(b as nat);
        assert(int_decimal(a)[0] == '-');
    } else if b < 0 {
        lemma_nat_decimal_first_digit(a as nat);
        assert(int_decimal(b)[0] == '-');
    } else {
        lemma_nat_decimal_injective(a as nat, b as nat);
    }
}

/// Joining from the front: the first part, the separator, the rest joined.
pub proof fn lemma_join_front_parts(parts: Seq<Seq<char>>, sep: Seq<char>)
    requires
        parts.len() >= 2,
    ensures
        join_spec(parts, sep) == parts[0] + sep + join_spec(parts.drop_first(), sep),
    decreases parts.len(),
{
    let d = parts.drop_last();
    let pdf = parts.drop_first();
    assert(join_spec(parts, sep) == join_spec(d, sep) + sep + parts.last());
    if parts.len() == 2 {
        assert(join_spec(d, sep) == d[0]);
        assert(join_spec(pdf, sep) == pdf[0]);
    } else {
        lemma_join_front_parts(d, sep);
        assert(d.drop_first() =~= pdf.drop_last());
        assert(pdf.last() == parts.last());
        assert(join_spec(pdf, sep) == join_spec(pdf.drop_last(), sep) + sep + pdf.last());
        assert(d[0] == parts[0]);
        assert(parts[0] + sep + join_spec(d.drop_first(), sep) + sep + parts.last() =~= parts[0] + sep
            + (join_spec(d.drop_first(), sep) + sep + parts.last()));
    }
}

/// `s` with every trailing `c` removed.
pub open spec fn trim_end_char_spec(s: Seq<char>, c: char) -> Seq<char>
    decreases s.len(),
{
    if s.len() > 0 && s.last() == c {
        trim_end_char_spec(s.drop_last(), c)
    } else {
        s
    }
}

pub open spec fn upper_char(c: char) -> char {
    if 'a' <= c && c <= 'z' {
        ((c as u32) - 32) as char
    } else {
        c
    }
}

pub open spec fn lower_char(c: char) -> char {
    if 'A' <= c && c <= 'Z' {
        ((c as u32) + 32) as char
    } else {
        c
    }
}

pub open spec fn upper_spec(s: Seq<char>) -> Seq<char> {
    s.map_values(|c: char| upper_char(c))
}

pub open spec fn lower_spec(s: Seq<char>) -> Seq<char> {
    s.map_values(|c: char| lower_char(c))
}

/// `pat` occurs in `s` at position `i`.
pub open spec fn occurs_at(s: Seq<char>, pat: Seq<char>, i: int) -> bool {
    0 <= i && i + pat.len() <= s.len() && s.subrange(i, i + pat.len()) == pat
}

/// The first position at or after `i` where `pat` occurs in `s`.
pub open spec fn find_from(s: Seq<char>, pat: Seq<char>, i: int) -> Option<int>
    decreases s.len() + 1 - i,
{
    if i < 0 || i + pat.len() > s.len() {
        None
    } else if occurs_at(s, pat, i) {
        Some(i)
    } else {
        find_from(s, pat, i + 1)
    }
}

/// The first position where `pat` occurs in `s`, as `str::find` gives it.
pub open spec fn find_spec(s: Seq<char>, pat: Seq<char>) -> Option<int> {
    find_from(s, pat, 0)
}

/// The first position at or after `i` holding `c`.
pub open spec fn find_char_from(s: Seq<char>, c: char, i: int) -> Option<int>
    decreases s.len() - i,
{
    if i < 0 || i >= s.len() {
        None
    } else if s[i] == c {
        Some(i)
    } else {
        find_char_from(s, c, i + 1)
    }
}

pub open spec fn find_char_spec(s: Seq<char>, c: char) -> Option<int> {
    find_char_from(s, c, 0)
}

pub open spec fn starts_with_spec(s: Seq<char>, p: Seq<char>) -> bool {
    p.len() <= s.len() && s.subrange(0, p.len() as int) == p
}

pub open spec fn ends_with_spec(s: Seq<char>, p: Seq<char>) -> bool {
    p.len() <= s.len() && s.subrange(s.len() - p.len(), s.len() as int) == p
}

pub open spec fn contains_spec(s: Seq<char>, p: Seq<char>) -> bool {
    find_spec(s, p) is Some
}

/// The parts of `s` between occurrences of `c`, as `str::split(c)` gives them.
pub open spec fn split_char_spec(s: Seq<char>, c: char) -> Seq<Seq<char>>
    decreases s.len(),
{
    match find_char_spec(s, c) {
        None => seq![s],
        Some(i) => if 0 <= i < s.len() {
            seq![s.subrange(0, i)] + split_char_spec(s.subrange(i + 1, s.len() as int), c)
        } else {
            seq![s]
        },
    }
}

/// The text before the first `c` (all of `s` when there is none), as
/// `s.split(c).next().unwrap()` gives it.
pub open spec fn before_char_spec(s: Seq<char>, c: char) -> Seq<char> {
    match find_char_spec(s, c) {
        None => s,
        Some(i) => s.subrange(0, i),
    }
}

/// `str::split_once(c)`.
pub open spec fn split_once_spec(s: Seq<char>, c: char) -> Option<(Seq<char>, Seq<char>)> {
    match find_char_spec(s, c) {
        None => None,
        Some(i) => Some((s.subrange(0, i), s.subrange(i + 1, s.len() as int))),
    }
}

/// `parts` joined with `sep` between neighbours.
pub open spec fn join_spec(parts: Seq<Seq<char>>, sep: Seq<char>) -> Seq<char>
    decreases parts.len(),
{
    if parts.len() == 0 {
        Seq::empty()
    } else if parts.len() == 1 {
        parts[0]
    } else {
        join_spec(parts.drop_last(), sep) + sep + parts.last()
    }
}

pub open spec fn digit_char(d: int) -> char {
    ((d + 48) as u32) as char
}

/// Decimal digits of a natural number.
pub open spec fn nat_decimal(n: nat) -> Seq<char>
    decreases n,
{
    if n < 10 {
        seq![digit_char(n as int)]
    } else {
        nat_decimal((n / 10) as nat).push(digit_char((n % 10) as int))
    }
}

/// The decimal text that `i64::to_string` gives.
pub open spec fn int_decimal(n: int) -> Seq<char> {
    if n < 0 {
        seq!['-'] + nat_decimal((-n) as nat)
    } else {
        nat_decimal(n as nat)
    }
}

pub open spec fn is_digit(c: char) -> bool {
    '0' <= c && c <= '9'
}

pub open spec fn all_digits(s: Seq<char>) -> bool {
    forall|i: int| 0 <= i < s.len() ==> is_digit(#[trigger] s[i])
}

/// The value of a run of decimal digits.
pub open spec fn digits_value(s: Seq<char>) -> int
    decreases s.len(),
{
    if s.len() == 0 {
        0
    } else {
        digits_value(s.drop_last()) * 10 + ((s.last() as u32) - 48)
    }
}

/// What `str::parse::<i64>` gives: an optional sign, then at least one digit,
/// with the value in range.
pub open spec fn parse_i64_spec(s: Seq<char>) -> Option<i64> {
    let neg = s.len() > 0 && s[0] == '-';
    let body = if s.len() > 0 && (s[0] == '-' || s[0] == '+') {
        s.drop_first()
    } else {
        s
    };
    let v = if neg {
        -digits_value(body)
    } else {
        digits_value(body)
    };
    if body.len() > 0 && all_digits(body) && i64::MIN <= v <= i64::MAX {
        Some(v as i64)
    } else {
        None
    }
}

/// Appends `c` to `s` (`String::push`).
#[verifier::external_body]
pub(crate) fn push_char(s: &mut String, c: char)
    ensures
        final(s)@ == old(s)@.push(c),
{
    s.push(c);
}

/// Appends `t` to `s`.
pub fn push_str(s: &mut String, t: &str)
    ensures
        final(s)@ == old(s)@ + t@,
{
    s.append(t);
}

/// The characters of `s`, in order.
pub fn str_to_chars(s: &str) -> (v: Vec<char>)
    ensures
        v@ == s@,
{
    let mut v: Vec<char> = Vec::new();
    for c in it: s.chars()
        invariant
            v@ == it.seq().take(it.index() as int),
            it.seq() == s@,
    {
        v.push(c);
    }
    v
}

/// The characters `v[lo..hi]` as a `String`.
pub fn chars_range_to_string(v: &[char], lo: usize, hi: usize) -> (s: String)
    requires
        lo <= hi <= v@.len(),
    ensures
        s@ == v@.subrange(lo as int, hi as int),
{
    let mut s = String::new();
    let mut i = lo;
    while i < hi
        invariant
            lo <= i <= hi <= v@.len(),
            s@ == v@.subrange(lo as int, i as int),
        decreases hi - i,
    {
        push_char(&mut s, v[i]);
        assert(v@.subrange(lo as int, i + 1) == v@.subrange(lo as int, i as int).push(v@[i as int]));
        i += 1;
    }
    s
}

/// The characters of `v` as a `String`.
pub fn chars_to_string(v: &[char]) -> (s: String)
    ensures
        s@ == v@,
{
    let s = chars_range_to_string(v, 0, v.len());
    assert(v@.subrange(0, v@.len() as int) == v@);
    s
}

/// Whether `c` is Unicode white space (`char::is_whitespace`).
pub fn is_whitespace(c: char) -> (b: bool)
    ensures
        b == is_ws(c),
{
    let u = c as u32;
    (0x9 <= u && u <= 0xD) || u == 0x20 || u == 0x85 || u == 0xA0 || u == 0x1680 || (0x2000
        <= u && u <= 0x200A) || u == 0x2028 || u == 0x2029 || u == 0x202F || u == 0x205F || u
        == 0x3000
}

proof fn lemma_trim_start_step(s: Seq<char>, i: int)
    requires
        0 <= i < s.len(),
        is_ws(s[i]),
    ensures
        trim_start_spec(s.subrange(i, s.len() as int)) == trim_start_spec(
            s.subrange(i + 1, s.len() as int),
        ),
{
    let t = s.subrange(i, s.len() as int);
    assert(t.drop_first() == s.subrange(i + 1, s.len() as int));
}

proof fn lemma_trim_end_step(s: Seq<char>, j: int)
    requires
        0 < j <= s.len(),
        is_ws(s[j - 1]),
    ensures
        trim_end_spec(s.subrange(0, j)) == trim_end_spec(s.subrange(0, j - 1)),
{
    let t = s.subrange(0, j);
    assert(t.drop_last() == s.subrange(0, j - 1));
}

/// The index of the first non-white-space character at or after 0, and the
/// end of the last one: `trim_spec(s) == s[a..b]`.
fn trim_bounds(v: &[char]) -> (r: (usize, usize))
    ensures
        r.0 <= r.1 <= v@.len(),
        trim_spec(v@) == v@.subrange(r.0 as int, r.1 as int),
        trim_start_spec(v@) == v@.subrange(r.0 as int, v@.len() as int),
{
    let n = v.len();
    let mut a: usize = 0;
    assert(v@.subrange(0, n as int) == v@);
    while a < n && is_whitespace(v[a])
        invariant
            a <= n == v@.len(),
            trim_start_spec(v@) == trim_start_spec(v@.subrange(a as int, n as int)),
        decreases n - a,
    {
        proof {
            lemma_trim_start_step(v@, a as int);
        }
        a += 1;
    }
    let ghost t = v@.subrange(a as int, n as int);
    assert(t.len() == 0 || !is_ws(t[0]));
    assert(trim_start_spec(t) == t);
    let mut b: usize = n;
    assert(t.subrange(0, (b - a) as int) == t);
    while b > a && is_whitespace(v[b - 1])
        invariant
            a <= b <= n == v@.len(),
            t == v@.subrange(a as int, n as int),
            trim_end_spec(t) == trim_end_spec(v@.subrange(a as int, b as int)),
        decreases b - a,
    {
        proof {
            let u = v@.subrange(a as int, b as int);
            assert(u.drop_last() == v@.subrange(a as int, b - 1));
        }
        b -= 1;
    }
    let ghost u = v@.subrange(a as int, b as int);
    assert(u.len() == 0 || !is_ws(u.last()));
    assert(trim_end_spec(u) == u);
    (a, b)
}

/// `s.trim()`.
pub fn trim(s: &str) -> (r: String)
    ensures
        r@ == trim_spec(s@),
{
    let v = str_to_chars(s);
    let (a, b) = trim_bounds(&v);
    chars_range_to_string(&v, a, b)
}

/// `s.trim_start()`.
pub fn trim_start(s: &str) -> (r: String)
    ensures
        r@ == trim_start_spec(s@),
{
    let v = str_to_chars(s);
    let (a, _b) = trim_bounds(&v);
    chars_range_to_string(&v, a, v.len())
}

/// Whether `s.trim()` is empty.
pub fn trim_is_empty(s: &str) -> (b: bool)
    ensures
        b == (trim_spec(s@).len() == 0),
{
    let v = str_to_chars(s);
    let (a, b) = trim_bounds(&v);
    a == b
}

/// `s.trim_end_matches(c)`.
pub fn trim_end_char(s: &str, c: char) -> (r: String)
    ensures
        r@ == trim_end_char_spec(s@, c),
{
    let v = str_to_chars(s);
    let mut b = v.len();
    assert(v@.subrange(0, b as int) == v@);
    while b > 0 && v[b - 1] == c
        invariant
            b <= v@.len(),
            trim_end_char_spec(v@, c) == trim_end_char_spec(v@.subrange(0, b as int), c),
        decreases b,
    {
        proof {
            let u = v@.subrange(0, b as int);
            assert(u.drop_last() == v@.subrange(0, b - 1));
        }
        b -= 1;
    }
    chars_range_to_string(&v, 0, b)
}

/// `s.to_ascii_uppercase()`.
pub fn to_ascii_uppercase(s: &str) -> (r: String)
    ensures
        r@ == upper_spec(s@),
{
    let v = str_to_chars(s);
    let mut r = String::new();
    let mut i: usize = 0;
    while i < v.len()
        invariant
            i <= v@.len(),
            v@ == s@,
            r@ == upper_spec(v@.subrange(0, i as int)),
        decreases v.len() - i,
    {
        let c = v[i];
        let u = if 'a' <= c && c <= 'z' {
            let x = (c as u32) - 32;
            assert(x <= 0x7f);
            proof {
                assert(((c as u32) - 32) as char == x as char);
            }
            char_from_ascii(x)
        } else {
            c
        };
        push_char(&mut r, u);
        assert(v@.subrange(0, i + 1) == v@.subrange(0, i as int).push(c));
        i += 1;
    }
    assert(v@.subrange(0, v@.len() as int) == v@);
    r
}

/// `s.to_ascii_lowercase()`.
pub fn to_ascii_lowercase(s: &str) -> (r: String)
    ensures
        r@ == lower_spec(s@),
{
    let v = str_to_chars(s);
    let mut r = String::new();
    let mut i: usize = 0;
    while i < v.len()
        invariant
            i <= v@.len(),
            v@ == s@,
            r@ == lower_spec(v@.subrange(0, i as int)),
        decreases v.len() - i,
    {
        let c = v[i];
        let u = if 'A' <= c && c <= 'Z' {
            let x = (c as u32) + 32;
            char_from_ascii(x)
        } else {
            c
        };
        push_char(&mut r, u);
        assert(v@.subrange(0, i + 1) == v@.subrange(0, i as int).push(c));
        i += 1;
    }
    assert(v@.subrange(0, v@.len() as int) == v@);
    r
}

/// The character with the ASCII code `x`.
pub fn char_from_ascii(x: u32) -> (c: char)
    requires
        x < 128,
    ensures
        c == x as char,
        c as u32 == x,
{
    let b = x as u8;
    b as char
}

pub proof fn lemma_find_char_from_range(s: Seq<char>, c: char, i: int)
    requires
        0 <= i,
    ensures
        find_char_from(s, c, i) matches Some(k) ==> (i <= k < s.len() && s[k] == c
            && forall|j: int| i <= j < k ==> s[j] != c),
        find_char_from(s, c, i) is None ==> forall|j: int| i <= j < s.len() ==> s[j] != c,
    decreases s.len() - i,
{
    if i < 0 || i >= s.len() {
    } else if s[i] == c {
    } else {
        lemma_find_char_from_range(s, c, i + 1);
    }
}

pub proof fn lemma_find_from_range(s: Seq<char>, pat: Seq<char>, i: int)
    ensures
        find_from(s, pat, i) matches Some(k) ==> (0 <= i <= k && k + pat.len() <= s.len()
            && occurs_at(s, pat, k) && forall|j: int| i <= j < k ==> !occurs_at(s, pat, j)),
        find_from(s, pat, i) is None ==> forall|j: int| 0 <= i <= j ==> !occurs_at(s, pat, j),
    decreases s.len() + 1 - i,
{
    if i < 0 || i + pat.len() > s.len() {
    } else if occurs_at(s, pat, i) {
    } else {
        lemma_find_from_range(s, pat, i + 1);
    }
}

/// Whether `pat` occurs in `v` at `i`.
pub fn occurs_at_exec(v: &[char], pat: &[char], i: usize) -> (b: bool)
    ensures
        b == occurs_at(v@, pat@, i as int),
{
    if i > v.len() || pat.len() > v.len() - i {
        return false;
    }
    assert(i + pat@.len() <= v@.len());
    let mut k: usize = 0;
    while k < pat.len()
        invariant
            i + pat.len() <= v.len(),
            i + pat@.len() <= v@.len(),
            k <= pat@.len(),
            forall|j: int| 0 <= j < k ==> v@[i + j] == pat@[j],
        decreases pat.len() - k,
    {
        if v[i + k] != pat[k] {
            assert(v@.subrange(i as int, i + pat@.len())[k as int] != pat@[k as int]);
            return false;
        }
        k += 1;
    }
    assert(v@.subrange(i as int, i + pat@.len()) =~= pat@);
    true
}

/// The first position at or after `from` where `pat` occurs in `v`.
pub fn find_from_exec(v: &[char], pat: &[char], from: usize) -> (r: Option<usize>)
    ensures
        r matches Some(k) ==> find_from(v@, pat@, from as int) == Some(k as int),
        r is None ==> find_from(v@, pat@, from as int) is None,
{
    if pat.len() > v.len() || from > v.len() - pat.len() {
        return None;
    }
    let last = v.len() - pat.len();
    let mut i = from;
    while i <= last
        invariant
            from <= i,
            last + pat@.len() == v@.len(),
            find_from(v@, pat@, from as int) == find_from(v@, pat@, i as int),
        decreases last + 1 - i,
    {
        if occurs_at_exec(v, pat, i) {
            return Some(i);
        }
        if i == last {
            assert(find_from(v@, pat@, i + 1) is None);
            return None;
        }
        i += 1;
    }
    None
}

/// The first position where `pat` occurs in `v` (`str::find`).
pub fn find_exec(v: &[char], pat: &[char]) -> (r: Option<usize>)
    ensures
        r matches Some(k) ==> find_spec(v@, pat@) == Some(k as int),
        r is None ==> find_spec(v@, pat@) is None,
{
    find_from_exec(v, pat, 0)
}

/// The first position at or after `from` holding `c`.
pub fn find_char_from_exec(v: &[char], c: char, from: usize) -> (r: Option<usize>)
    ensures
        r matches Some(k) ==> find_char_from(v@, c, from as int) == Some(k as int),
        r is None ==> find_char_from(v@, c, from as int) is None,
{
    let mut i = from;
    while i < v.len()
        invariant
            from <= i,
            find_char_from(v@, c, from as int) == find_char_from(v@, c, i as int),
        decreases v.len() - i,
    {
        if v[i] == c {
            return Some(i);
        }
        i += 1;
    }
    None
}

/// The first position holding `c`.
pub fn find_char_exec(v: &[char], c: char) -> (r: Option<usize>)
    ensures
        r matches Some(k) ==> find_char_spec(v@, c) == Some(k as int),
        r is None ==> find_char_spec(v@, c) is None,
{
    find_char_from_exec(v, c, 0)
}

/// Whether `v` starts with `p`.
pub fn starts_with_exec(v: &[char], p: &[char]) -> (b: bool)
    ensures
        b == starts_with_spec(v@, p@),
{
    let b = occurs_at_exec(v, p, 0);
    assert(b == occurs_at(v@, p@, 0));
    b
}

/// Whether `v` ends with `p`.
pub fn ends_with_exec(v: &[char], p: &[char]) -> (b: bool)
    ensures
        b == ends_with_spec(v@, p@),
{
    if p.len() > v.len() {
        return false;
    }
    occurs_at_exec(v, p, v.len() - p.len())
}

/// Whether `pat` occurs in `v`.
pub fn contains_exec(v: &[char], pat: &[char]) -> (b: bool)
    ensures
        b == contains_spec(v@, pat@),
{
    find_exec(v, pat).is_some()
}

/// `s.contains(pat)` on strings.
pub fn str_contains(s: &str, pat: &str) -> (b: bool)
    ensures
        b == contains_spec(s@, pat@),
{
    let v = str_to_chars(s);
    let p = str_to_chars(pat);
    contains_exec(&v, &p)
}

/// `s.starts_with(p)` on strings.
pub fn str_starts_with(s: &str, p: &str) -> (b: bool)
    ensures
        b == starts_with_spec(s@, p@),
{
    let v = str_to_chars(s);
    let q = str_to_chars(p);
    starts_with_exec(&v, &q)
}

/// `s.ends_with(p)` on strings.
pub fn str_ends_with(s: &str, p: &str) -> (b: bool)
    ensures
        b == ends_with_spec(s@, p@),
{
    let v = str_to_chars(s);
    let q = str_to_chars(p);
    ends_with_exec(&v, &q)
}

/// `s.split_once(c)`.
pub fn split_once_char(s: &str, c: char) -> (r: Option<(String, String)>)
    ensures
        r matches Some(p) ==> split_once_spec(s@, c) == Some((p.0@, p.1@)),
        r is None ==> split_once_spec(s@, c) is None,
{
    let v = str_to_chars(s);
    match find_char_exec(&v, c) {
        None => None,
        Some(i) => {
            proof {
                lemma_find_char_from_range(v@, c, 0);
            }
            assert(i < v.len());
            Some((chars_range_to_string(&v, 0, i), chars_range_to_string(&v, i + 1, v.len())))
        },
    }
}

/// The text before the first `c`, all of `s` when there is none.
pub fn before_char(s: &str, c: char) -> (r: String)
    ensures
        r@ == before_char_spec(s@, c),
{
    let v = str_to_chars(s);
    match find_char_exec(&v, c) {
        None => chars_to_string(&v),
        Some(i) => {
            proof {
                lemma_find_char_from_range(v@, c, 0);
            }
            chars_range_to_string(&v, 0, i)
        },
    }
}

/// `s.split(c)` collected.
pub fn split_char(s: &str, c: char) -> (r: Vec<String>)
    ensures
        strings_view(r@) == split_char_spec(s@, c),
{
    let v = str_to_chars(s);
    let mut r: Vec<String> = Vec::new();
    let mut start: usize = 0;
    assert(v@.subrange(0, v@.len() as int) == v@);
    loop
        invariant
            start <= v@.len(),
            v@ == s@,
            strings_view(r@) + split_char_spec(
                v@.subrange(start as int, v@.len() as int),
                c,
            ) == split_char_spec(s@, c),
        decreases v@.len() - start,
    {
        let ghost rest = v@.subrange(start as int, v@.len() as int);
        match find_char_from_exec(&v, c, start) {
            None => {
                proof {
                    lemma_find_char_from_range(v@, c, start as int);
                    lemma_find_char_from_range(rest, c, 0);
                    match find_char_spec(rest, c) {
                        Some(k) => {
                            assert(rest[k] == v@[start + k]);
                        },
                        None => {},
                    }
                }
                let piece = chars_range_to_string(&v, start, v.len());
                let ghost before = strings_view(r@);
                r.push(piece);
                assert(strings_view(r@) =~= before.push(rest));
                return r;
            },
            Some(i) => {
                proof {
                    lemma_find_char_from_range(v@, c, start as int);
                    lemma_find_char_from_range(rest, c, 0);
                    let k = (i - start) as int;
                    assert(rest[k] == c);
                    assert(i < v.len());
                    match find_char_spec(rest, c) {
                        Some(k2) => {
                            assert(rest[k2] == v@[start + k2]);
                            assert(k2 == k);
                        },
                        None => {},
                    }
                    assert(rest.subrange(0, k) =~= v@.subrange(start as int, i as int));
                    assert(rest.subrange(k + 1, rest.len() as int) =~= v@.subrange(
                        i + 1,
                        v@.len() as int,
                    ));
                }
                let piece = chars_range_to_string(&v, start, i);
                let ghost before = strings_view(r@);
                r.push(piece);
                assert(strings_view(r@) =~= before.push(
                    v@.subrange(start as int, i as int),
                ));
                start = i + 1;
            },
        }
    }
}

/// `parts.join(sep)`.
pub fn join_strings(parts: &[String], sep: &str) -> (r: String)
    ensures
        r@ == join_spec(strings_view(parts@), sep@),
{
    let mut r = String::new();
    let mut i: usize = 0;
    while i < parts.len()
        invariant
            i <= parts@.len(),
            r@ == join_spec(strings_view(parts@.subrange(0, i as int)), sep@),
        decreases parts.len() - i,
    {
        let ghost before = strings_view(parts@.subrange(0, i as int));
        let ghost after = strings_view(parts@.subrange(0, i + 1));
        assert(after.drop_last() =~= before);
        if i > 0 {
            push_str(&mut r, sep);
        }
        push_str(&mut r, parts[i].as_str());
        i += 1;
    }
    assert(parts@.subrange(0, parts@.len() as int) == parts@);
    r
}

proof fn lemma_nat_decimal_len(n: nat)
    ensures
        nat_decimal(n).len() >= 1,
    decreases n,
{
    if n >= 10 {
        lemma_nat_decimal_len((n / 10) as nat);
    }
}

/// The decimal digits of `n`.
fn u64_to_decimal(n: u64) -> (r: String)
    ensures
        r@ == nat_decimal(n as nat),
    decreases n,
{
    if n < 10 {
        let mut r = String::new();
        let c = char_from_ascii((n + 48) as u32);
        push_char(&mut r, c);
        r
    } else {
        let mut r = u64_to_decimal(n / 10);
        let d = n % 10;
        let c = char_from_ascii((d + 48) as u32);
        push_char(&mut r, c);
        r
    }
}

/// `n.to_string()`.
pub fn i64_to_string(n: i64) -> (r: String)
    ensures
        r@ == int_decimal(n as int),
{
    if n < 0 {
        let m: u64 = if n == i64::MIN {
            9223372036854775808u64
        } else {
            (-n) as u64
        };
        let mut r = String::new();
        push_char(&mut r, '-');
        let d = u64_to_decimal(m);
        push_str(&mut r, d.as_str());
        assert(r@ =~= seq!['-'] + nat_decimal((-n) as nat));
        r
    } else {
        u64_to_decimal(n as u64)
    }
}

proof fn lemma_digits_value_bounds(s: Seq<char>)
    requires
        all_digits(s),
    ensures
        0 <= digits_value(s),
    decreases s.len(),
{
    if s.len() > 0 {
        assert(all_digits(s.drop_last()));
        lemma_digits_value_bounds(s.drop_last());
    }
}

/// `s.parse::<i64>().ok()`.
pub fn parse_i64(s: &str) -> (r: Option<i64>)
    ensures
        r == parse_i64_spec(s@),
{
    let v = str_to_chars(s);
    let neg = v.len() > 0 && v[0] == '-';
    let start: usize = if v.len() > 0 && (v[0] == '-' || v[0] == '+') {
        1
    } else {
        0
    };
    let ghost body = if v@.len() > 0 && (v@[0] == '-' || v@[0] == '+') {
        v@.drop_first()
    } else {
        v@
    };
    assert(body =~= v@.subrange(start as int, v@.len() as int));
    if start >= v.len() {
        assert(body.len() == 0);
        return None;
    }
    // accumulate the magnitude, negative when the sign is '-', so that
    // i64::MIN stays representable
    let mut acc: i64 = 0;
    let mut i = start;
    while i < v.len()
        invariant
            start <= i <= v@.len(),
            v@ == s@,
            start == (if v@.len() > 0 && (v@[0] == '-' || v@[0] == '+') {
                1int
            } else {
                0int
            }),
            neg == (v@.len() > 0 && v@[0] == '-'),
            body == (if v@.len() > 0 && (v@[0] == '-' || v@[0] == '+') {
                v@.drop_first()
            } else {
                v@
            }),
            body == v@.subrange(start as int, v@.len() as int),
            all_digits(v@.subrange(start as int, i as int)),
            acc == (if neg {
                -digits_value(v@.subrange(start as int, i as int))
            } else {
                digits_value(v@.subrange(start as int, i as int))
            }),
        decreases v.len() - i,
    {
        let c = v[i];
        let ghost pre = v@.subrange(start as int, i as int);
        let ghost post = v@.subrange(start as int, i + 1);
        assert(post.drop_last() =~= pre);
        if !('0' <= c && c <= '9') {
            assert(body[(i - start) as int] == c);
            assert(!is_digit(body[(i - start) as int]));
            assert(!all_digits(body));
            return None;
        }
        let d = (c as u32 - 48) as i64;
        assert(post.last() == c);
        assert(digits_value(post) == digits_value(pre) * 10 + d);
        proof {
            assert(all_digits(post)) by {
                assert forall|j: int| 0 <= j < post.len() implies is_digit(#[trigger] post[j]) by {
                    if j < pre.len() {
                        assert(post[j] == pre[j]);
                    }
                }
            }
            lemma_digits_value_bounds(pre);
        }
        if neg {
            match acc.checked_mul(10) {
                None => {
                    proof {
                        lemma_rest_keeps_magnitude(v@, start as int, i + 1, neg);
                    }
                    return None;
                },
                Some(m) => match m.checked_sub(d) {
                    None => {
                        proof {
                            lemma_rest_keeps_magnitude(v@, start as int, i + 1, neg);
                        }
                        return None;
                    },
                    Some(x) => {
                        acc = x;
                    },
                },
            }
        } else {
            match acc.checked_mul(10) {
                None => {
                    proof {
                        lemma_rest_keeps_magnitude(v@, start as int, i + 1, neg);
                    }
                    return None;
                },
                Some(m) => match m.checked_add(d) {
                    None => {
                        proof {
                            lemma_rest_keeps_magnitude(v@, start as int, i + 1, neg);
                        }
                        return None;
                    },
                    Some(x) => {
                        acc = x;
                    },
                },
            }
        }
        i += 1;
    }
    assert(v@.subrange(start as int, v@.len() as int) == body);
    Some(acc)
}

/// Once the digits read so far overflow, the whole digit run does too (or is
/// not all digits).
proof fn lemma_rest_keeps_magnitude(v: Seq<char>, start: int, i: int, neg: bool)
    requires
        0 <= start < i <= v.len(),
        all_digits(v.subrange(start, i)),
        digits_value(v.subrange(start, i)) > i64::MAX + 1 || (!neg && digits_value(
            v.subrange(start, i),
        ) > i64::MAX),
        start == (if v.len() > 0 && (v[0] == '-' || v[0] == '+') {
            1int
        } else {
            0int
        }),
        neg == (v.len() > 0 && v[0] == '-'),
    ensures
        parse_i64_spec(v) is None,
    decreases v.len() - i,
{
    if i < v.len() {
        let pre = v.subrange(start, i);
        let post = v.subrange(start, i + 1);
        assert(post.drop_last() =~= pre);
        if is_digit(v[i]) {
            assert(all_digits(post)) by {
                assert forall|j: int| 0 <= j < post.len() implies is_digit(#[trigger] post[j]) by {
                    if j < pre.len() {
                        assert(post[j] == pre[j]);
                    }
                }
            }
            lemma_rest_keeps_magnitude(v, start, i + 1, neg);
        } else {
            let whole = v.subrange(start, v.len() as int);
            assert(whole[i - start] == v[i]);
            assert(!is_digit(whole[i - start]));
            assert(whole =~= (if v.len() > 0 && (v[0] == '-' || v[0] == '+') {
                v.drop_first()
            } else {
                v
            }));
        }
    } else {
        assert(v.subrange(start, i) == v.subrange(start, v.len() as int));
        assert(v.subrange(start, i) =~= (if v.len() > 0 && (v[0] == '-' || v[0] == '+') {
            v.drop_first()
        } else {
            v
        }));
    }
}

} // verus!
