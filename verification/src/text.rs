//! Text building blocks of the SQL dialect: quoted identifiers, decimal
//! numbers and numbered placeholders, with the scanner that finds the
//! placeholders of a finished statement.

use vstd::prelude::*;
use vstd::string::StringExecFns;
use vstd::std_specs::iter::IteratorSpec;

verus! {

/// The character of a decimal digit; `'0'` for anything above nine.
pub open spec fn digit_char(d: nat) -> char {
    if d == 1 {
        '1'
    } else if d == 2 {
        '2'
    } else if d == 3 {
        '3'
    } else if d == 4 {
        '4'
    } else if d == 5 {
        '5'
    } else if d == 6 {
        '6'
    } else if d == 7 {
        '7'
    } else if d == 8 {
        '8'
    } else if d == 9 {
        '9'
    } else {
        '0'
    }
}

/// Whether `c` is one of `'0'..='9'`.
pub open spec fn is_digit(c: char) -> bool {
    c == '0' || c == '1' || c == '2' || c == '3' || c == '4' || c == '5' || c == '6' || c == '7'
        || c == '8' || c == '9'
}

/// The value of a decimal digit character; zero for any other character.
pub open spec fn digit_value(c: char) -> nat {
    if c == '1' {
        1
    } else if c == '2' {
        2
    } else if c == '3' {
        3
    } else if c == '4' {
        4
    } else if c == '5' {
        5
    } else if c == '6' {
        6
    } else if c == '7' {
        7
    } else if c == '8' {
        8
    } else if c == '9' {
        9
    } else {
        0
    }
}

/// The decimal digits of `n`, most significant first, without leading zeros.
pub open spec fn decimal(n: nat) -> Seq<char>
    decreases n,
{
    if n < 10 {
        seq![digit_char(n)]
    } else {
        decimal(n / 10).push(digit_char(n % 10))
    }
}

/// The text of the placeholder with number `k`: a dollar sign and `k` in decimal.
pub open spec fn placeholder(k: nat) -> Seq<char> {
    seq!['$'] + decimal(k)
}

/// A character as it stands inside a quoted identifier: a double quote is
/// written twice, any other character as it is.
pub open spec fn escaped_char(c: char) -> Seq<char> {
    if c == '"' {
        seq!['"', '"']
    } else {
        seq![c]
    }
}

/// A name as it stands inside a quoted identifier: each double quote in it
/// is written twice.
pub open spec fn escaped(name: Seq<char>) -> Seq<char>
    decreases name.len(),
{
    if name.len() == 0 {
        Seq::<char>::empty()
    } else {
        escaped(name.drop_last()) + escaped_char(name.last())
    }
}

/// An identifier between double quotes; a double quote inside it is
/// written twice, so that the identifier ends where its text ends.
pub open spec fn quoted(name: Seq<char>) -> Seq<char> {
    seq!['"'] + escaped(name) + seq!['"']
}

/// A name between double quotes, as it is.
pub open spec fn enclosed(name: Seq<char>) -> Seq<char> {
    seq!['"'] + name + seq!['"']
}

/// A column qualified by its table, each between double quotes as it is:
/// `"table"."column"`.
pub open spec fn quoted_column_text(table: Seq<char>, column: Seq<char>) -> Seq<char> {
    enclosed(table) + seq!['.'] + enclosed(column)
}

/// Whether `s` holds no dollar sign, so that no placeholder can start in it.
pub open spec fn dollar_free(s: Seq<char>) -> bool {
    forall|i: int| 0 <= i < s.len() ==> s[i] != '$'
}

/// Whether `s` is empty or starts with something other than a digit, so that
/// it cannot lengthen a number that ends just before it.
pub open spec fn starts_clear(s: Seq<char>) -> bool {
    s.len() == 0 || !is_digit(s[0])
}

/// How many digits stand at the front of `s`.
pub open spec fn digit_run(s: Seq<char>) -> nat
    decreases s.len(),
{
    if s.len() > 0 && is_digit(s[0]) {
        1 + digit_run(s.skip(1))
    } else {
        0
    }
}

/// The number that the first `len` characters of `s` spell in decimal.
pub open spec fn number_of(s: Seq<char>, len: nat) -> nat
    decreases len,
{
    if len == 0 || len > s.len() {
        0
    } else {
        number_of(s, (len - 1) as nat) * 10 + digit_value(s[len - 1])
    }
}

/// The numbers of the placeholders in `s`, in the order in which they occur.
/// A placeholder is a dollar sign with the longest run of digits behind it.
pub open spec fn placeholders(s: Seq<char>) -> Seq<nat>
    decreases s.len(),
{
    if s.len() == 0 {
        Seq::<nat>::empty()
    } else if s[0] == '$' {
        let rest = s.skip(1);
        seq![number_of(rest, digit_run(rest))] + placeholders(rest)
    } else {
        placeholders(s.skip(1))
    }
}

/// The numbers `first, first + 1, ..` of `count` consecutive placeholders.
pub open spec fn numbered_from(first: nat, count: nat) -> Seq<nat> {
    Seq::new(count, |i: int| (first + i) as nat)
}

/// The digits at the front of a text are digits, they do not outnumber the
/// text, and what stands behind them is no digit.
pub proof fn lemma_digit_run_bound(s: Seq<char>)
    ensures
        digit_run(s) <= s.len(),
        forall|i: int| 0 <= i < digit_run(s) ==> is_digit(#[trigger] s[i]),
        digit_run(s) < s.len() ==> !is_digit(s[digit_run(s) as int]),
    decreases s.len(),
{
    if s.len() > 0 && is_digit(s[0]) {
        let t = s.skip(1);
        lemma_digit_run_bound(t);
        assert forall|i: int| 0 <= i < digit_run(s) implies is_digit(#[trigger] s[i]) by {
            if i > 0 {
                assert(s[i] == t[i - 1]);
            }
        }
        if digit_run(s) < s.len() {
            assert(s[digit_run(s) as int] == t[digit_run(t) as int]);
        }
    }
}

/// A text without a dollar sign holds no placeholder.
pub proof fn lemma_placeholders_none(s: Seq<char>)
    requires
        dollar_free(s),
    ensures
        placeholders(s) == Seq::<nat>::empty(),
    decreases s.len(),
{
    if s.len() > 0 {
        let t = s.skip(1);
        assert forall|i: int| 0 <= i < t.len() implies t[i] != '$' by {
            assert(t[i] == s[i + 1]);
        }
        lemma_placeholders_none(t);
    }
}

/// A text that does not start with a digit adds nothing to the digits at
/// the front of the text before it.
proof fn lemma_digit_run_concat(a: Seq<char>, b: Seq<char>)
    requires
        starts_clear(b),
    ensures
        digit_run(a + b) == digit_run(a),
    decreases a.len(),
{
    if a.len() == 0 {
        assert(a + b == b);
    } else if is_digit(a[0]) {
        assert((a + b)[0] == a[0]);
        assert((a + b).skip(1) == a.skip(1) + b);
        lemma_digit_run_concat(a.skip(1), b);
    } else {
        assert((a + b)[0] == a[0]);
    }
}

/// The number that the front of a text spells does not depend on what
/// stands behind it.
proof fn lemma_number_of_prefix(a: Seq<char>, b: Seq<char>, len: nat)
    requires
        len <= a.len(),
    ensures
        number_of(a + b, len) == number_of(a, len),
    decreases len,
{
    if len > 0 {
        lemma_number_of_prefix(a, b, (len - 1) as nat);
        assert((a + b)[len - 1] == a[len - 1]);
    }
}

/// Scanning a text made of two parts gives the placeholders of the first and
/// then those of the second, provided the second does not start with a digit.
pub proof fn lemma_placeholders_concat(a: Seq<char>, b: Seq<char>)
    requires
        starts_clear(b),
    ensures
        placeholders(a + b) == placeholders(a) + placeholders(b),
    decreases a.len(),
{
    if a.len() == 0 {
        assert(a + b == b);
        assert(placeholders(a) + placeholders(b) == placeholders(b));
    } else {
        let rest = a.skip(1);
        assert((a + b)[0] == a[0]);
        assert((a + b).skip(1) == rest + b);
        lemma_placeholders_concat(rest, b);
        if a[0] == '$' {
            let run = digit_run(rest);
            lemma_digit_run_concat(rest, b);
            lemma_digit_run_bound(rest);
            lemma_number_of_prefix(rest, b, run);
            assert(placeholders(a + b) == seq![number_of(rest, run)] + (placeholders(rest)
                + placeholders(b)));
        }
    }
}

/// The decimal digits of a number are digits, and spell that number.
pub proof fn lemma_decimal(n: nat)
    ensures
        decimal(n).len() > 0,
        digit_run(decimal(n)) == decimal(n).len(),
        number_of(decimal(n), decimal(n).len()) == n,
        dollar_free(decimal(n)),
    decreases n,
{
    let d = decimal(n);
    if n < 10 {
        assert(is_digit(digit_char(n)));
        assert(d.skip(1).len() == 0);
        assert(digit_run(d.skip(1)) == 0);
        assert(number_of(d, 0) == 0);
        assert(digit_value(digit_char(n)) == n);
    } else {
        let p = decimal(n / 10);
        let last = seq![digit_char(n % 10)];
        lemma_decimal(n / 10);
        assert(d == p + last);
        assert(is_digit(digit_char(n % 10)));
        assert(last.skip(1).len() == 0);
        assert(digit_run(last.skip(1)) == 0);
        assert(digit_run(last) == 1);
        lemma_digit_run_all(p, last);
        lemma_number_of_prefix(p, last, p.len());
        assert(digit_value(digit_char(n % 10)) == n % 10);
        assert(number_of(d, (d.len() - 1) as nat) == n / 10);
        assert forall|i: int| 0 <= i < d.len() implies d[i] != '$' by {
            if i < p.len() {
                assert(d[i] == p[i]);
            }
        }
    }
}

/// Behind a text of digits, the digits at the front of the next text count on.
proof fn lemma_digit_run_all(a: Seq<char>, b: Seq<char>)
    requires
        digit_run(a) == a.len(),
    ensures
        digit_run(a + b) == a.len() + digit_run(b),
    decreases a.len(),
{
    if a.len() == 0 {
        assert(a + b == b);
    } else {
        assert((a + b)[0] == a[0]);
        assert((a + b).skip(1) == a.skip(1) + b);
        lemma_digit_run_all(a.skip(1), b);
    }
}

/// The text of placeholder `k` holds exactly the placeholder `k`.
pub proof fn lemma_placeholder_single(k: nat)
    ensures
        placeholders(placeholder(k)) == seq![k],
{
    let s = placeholder(k);
    let rest = s.skip(1);
    lemma_decimal(k);
    assert(rest == decimal(k));
    lemma_placeholders_none(rest);
    assert(seq![k] + Seq::<nat>::empty() == seq![k]);
}

/// A name without a dollar sign has none after its double quotes were
/// written twice.
pub proof fn lemma_escaped_clear(name: Seq<char>)
    requires
        dollar_free(name),
    ensures
        dollar_free(escaped(name)),
    decreases name.len(),
{
    if name.len() > 0 {
        let front = name.drop_last();
        assert forall|i: int| 0 <= i < front.len() implies front[i] != '$' by {
            assert(front[i] == name[i]);
        }
        lemma_escaped_clear(front);
        let head = escaped(front);
        let tail = escaped_char(name.last());
        assert(name.last() == name[name.len() - 1]);
        assert forall|i: int| 0 <= i < (head + tail).len() implies (head + tail)[i] != '$' by {
            if i < head.len() {
                assert((head + tail)[i] == head[i]);
            } else {
                assert((head + tail)[i] == tail[i - head.len()]);
            }
        }
    }
}

/// A name without a double quote stands inside a quoted identifier as it
/// is.
pub proof fn lemma_escaped_same(name: Seq<char>)
    requires
        forall|i: int| 0 <= i < name.len() ==> name[i] != '"',
    ensures
        escaped(name) == name,
    decreases name.len(),
{
    if name.len() > 0 {
        let front = name.drop_last();
        assert forall|i: int| 0 <= i < front.len() implies front[i] != '"' by {
            assert(front[i] == name[i]);
        }
        lemma_escaped_same(front);
        assert(name.last() == name[name.len() - 1]);
        assert(escaped(name) =~= name);
    } else {
        assert(escaped(name) =~= name);
    }
}

/// The quoted form of a name without a dollar sign holds no placeholder and
/// does not start with a digit.
pub proof fn lemma_quoted_clear(name: Seq<char>)
    requires
        dollar_free(name),
    ensures
        dollar_free(quoted(name)),
        starts_clear(quoted(name)),
        placeholders(quoted(name)) == Seq::<nat>::empty(),
{
    lemma_escaped_clear(name);
    let q = quoted(name);
    let inner = escaped(name);
    assert forall|i: int| 0 <= i < q.len() implies q[i] != '$' by {
        if 0 < i && i < q.len() - 1 {
            assert(q[i] == inner[i - 1]);
        }
    }
    lemma_placeholders_none(q);
}

/// A name without a dollar sign, between double quotes as it is, holds no
/// placeholder and does not start with a digit.
pub proof fn lemma_enclosed_clear(name: Seq<char>)
    requires
        dollar_free(name),
    ensures
        dollar_free(enclosed(name)),
        starts_clear(enclosed(name)),
        placeholders(enclosed(name)) == Seq::<nat>::empty(),
{
    let q = enclosed(name);
    assert forall|i: int| 0 <= i < q.len() implies q[i] != '$' by {
        if 0 < i && i < q.len() - 1 {
            assert(q[i] == name[i - 1]);
        }
    }
    lemma_placeholders_none(q);
}

/// Whether `s` is fixed text of a statement: it holds no placeholder and
/// does not start with a digit.
pub open spec fn plain(s: Seq<char>) -> bool {
    dollar_free(s) && starts_clear(s)
}

/// Whether `text` holds exactly the placeholders `base + 1, .., base + count`,
/// in that order, and does not start with a digit.
pub open spec fn well_numbered(text: Seq<char>, base: nat, count: nat) -> bool {
    starts_clear(text) && placeholders(text) == numbered_from(base + 1, count)
}

/// Fixed text is well numbered with no placeholder, after any number of them.
pub proof fn lemma_numbered_plain(s: Seq<char>, base: nat)
    requires
        plain(s),
    ensures
        well_numbered(s, base, 0),
{
    lemma_placeholders_none(s);
    assert(numbered_from(base + 1, 0) == Seq::<nat>::empty());
}

/// The placeholder after `base` others is well numbered by itself.
pub proof fn lemma_numbered_placeholder(base: nat)
    ensures
        well_numbered(placeholder(base + 1), base, 1),
{
    lemma_placeholder_single(base + 1);
    assert(placeholder(base + 1)[0] == '$');
    assert(numbered_from(base + 1, 1) == seq![(base + 1) as nat]);
}

/// Two well-numbered texts, the second counting on where the first stopped,
/// make a well-numbered text.
pub proof fn lemma_numbered_concat(a: Seq<char>, b: Seq<char>, base: nat, m: nat, n: nat)
    requires
        well_numbered(a, base, m),
        well_numbered(b, base + m, n),
    ensures
        well_numbered(a + b, base, m + n),
{
    lemma_placeholders_concat(a, b);
    assert(numbered_from(base + 1, m) + numbered_from(base + m + 1, n) == numbered_from(
        base + 1,
        m + n,
    ));
    if a.len() == 0 {
        assert(a + b == b);
    } else {
        assert((a + b)[0] == a[0]);
    }
}

/// A quoted column whose names hold no dollar sign is fixed text.
pub proof fn lemma_quoted_column_plain(table: Seq<char>, column: Seq<char>)
    requires
        dollar_free(table),
        dollar_free(column),
    ensures
        plain(quoted_column_text(table, column)),
        plain(quoted(table)),
{
    lemma_quoted_clear(table);
    lemma_enclosed_clear(table);
    lemma_enclosed_clear(column);
    let q = quoted_column_text(table, column);
    let qt = enclosed(table);
    let qc = enclosed(column);
    assert(q[0] == '"');
    assert forall|i: int| 0 <= i < q.len() implies q[i] != '$' by {
        if i < qt.len() {
            assert(q[i] == qt[i]);
        } else if i == qt.len() {
        } else {
            assert(q[i] == qc[i - qt.len() - 1]);
        }
    }
}

/// Fixed text followed by fixed text is fixed text.
pub proof fn lemma_plain_concat(a: Seq<char>, b: Seq<char>)
    requires
        plain(a),
        plain(b),
    ensures
        plain(a + b),
{
    let c = a + b;
    assert forall|i: int| 0 <= i < c.len() implies c[i] != '$' by {
        if i < a.len() {
            assert(c[i] == a[i]);
        } else {
            assert(c[i] == b[i - a.len()]);
        }
    }
    if a.len() == 0 {
        assert(c == b);
    } else {
        assert(c[0] == a[0]);
    }
}

/// Calls `char::to_string`: the text of one character.
#[verifier::external_body]
pub(crate) fn char_text(c: char) -> (r: String)
    ensures
        r@ == seq![c],
{
    c.to_string()
}

/// The one-character text of a digit.
fn digit_str(d: usize) -> (r: &'static str)
    requires
        d < 10,
    ensures
        r@ == seq![digit_char(d as nat)],
{
    proof {
        reveal_strlit("0");
        reveal_strlit("1");
        reveal_strlit("2");
        reveal_strlit("3");
        reveal_strlit("4");
        reveal_strlit("5");
        reveal_strlit("6");
        reveal_strlit("7");
        reveal_strlit("8");
        reveal_strlit("9");
    }
    let r = if d == 0 {
        "0"
    } else if d == 1 {
        "1"
    } else if d == 2 {
        "2"
    } else if d == 3 {
        "3"
    } else if d == 4 {
        "4"
    } else if d == 5 {
        "5"
    } else if d == 6 {
        "6"
    } else if d == 7 {
        "7"
    } else if d == 8 {
        "8"
    } else {
        "9"
    };
    assert(r@ =~= seq![digit_char(d as nat)]);
    r
}

/// Appends `n` in decimal to `buf`.
pub fn push_decimal(buf: &mut String, n: usize)
    ensures
        final(buf)@ == old(buf)@ + decimal(n as nat),
    decreases n,
{
    if n >= 10 {
        push_decimal(buf, n / 10);
    }
    buf.append(digit_str(n % 10));
    assert(buf@ =~= old(buf)@ + decimal(n as nat));
}

/// Appends the placeholder with number `k` to `buf`.
pub fn push_placeholder(buf: &mut String, k: usize)
    ensures
        final(buf)@ == old(buf)@ + placeholder(k as nat),
{
    proof {
        reveal_strlit("$");
    }
    buf.append("$");
    push_decimal(buf, k);
    assert(buf@ =~= old(buf)@ + placeholder(k as nat));
}

/// Appends `name` to `buf`, each double quote in it written twice.
pub fn push_escaped(buf: &mut String, name: &str)
    ensures
        final(buf)@ == old(buf)@ + escaped(name@),
{
    let ghost start = buf@;
    let chars = to_chars(name);
    let mut i: usize = 0;
    proof {
        reveal_strlit("\"\"");
        assert(chars@.take(0) =~= Seq::<char>::empty());
        assert(buf@ =~= start + escaped(chars@.take(0)));
    }
    while i < chars.len()
        invariant
            i <= chars.len(),
            buf@ == start + escaped(chars@.take(i as int)),
            "\"\""@ == seq!['"', '"'],
        decreases chars.len() - i,
    {
        let ghost before = buf@;
        if chars[i] == '"' {
            buf.append("\"\"");
        } else {
            let one = char_text(chars[i]);
            buf.append(one.as_str());
        }
        proof {
            let next = chars@.take(i + 1);
            assert(next.drop_last() =~= chars@.take(i as int));
            assert(next.last() == chars@[i as int]);
            assert(buf@ =~= start + escaped(next));
        }
        i = i + 1;
    }
    proof {
        assert(chars@.take(chars@.len() as int) =~= chars@);
    }
}

/// Appends `name` as a quoted identifier to `buf`.
pub fn push_quoted(buf: &mut String, name: &str)
    ensures
        final(buf)@ == old(buf)@ + quoted(name@),
{
    proof {
        reveal_strlit("\"");
    }
    buf.append("\"");
    push_escaped(buf, name);
    buf.append("\"");
    assert(buf@ =~= old(buf)@ + quoted(name@));
}

/// Appends `name` between double quotes, as it is, to `buf`.
pub fn push_enclosed(buf: &mut String, name: &str)
    ensures
        final(buf)@ == old(buf)@ + enclosed(name@),
{
    proof {
        reveal_strlit("\"");
    }
    buf.append("\"");
    buf.append(name);
    buf.append("\"");
    assert(buf@ =~= old(buf)@ + enclosed(name@));
}

/// Appends `"table"."column"` to `buf`.
pub fn push_quoted_column(buf: &mut String, table: &str, column: &str)
    ensures
        final(buf)@ == old(buf)@ + quoted_column_text(table@, column@),
{
    proof {
        reveal_strlit(".");
    }
    push_enclosed(buf, table);
    buf.append(".");
    push_enclosed(buf, column);
    assert(buf@ =~= old(buf)@ + quoted_column_text(table@, column@));
}

/// Formats a quoted `"table"."column"` reference.
pub fn quoted_column(table: &str, column: &str) -> (r: String)
    ensures
        r@ == quoted_column_text(table@, column@),
{
    let mut buf = String::new();
    push_quoted_column(&mut buf, table, column);
    assert(buf@ =~= quoted_column_text(table@, column@));
    buf
}

/// The characters of `s`, one by one.
pub fn to_chars(s: &str) -> (v: Vec<char>)
    ensures
        v@ == s@,
{
    let mut chars = s.chars();
    let mut v: Vec<char> = Vec::new();
    proof {
        assert(s@.skip(0) == s@);
    }
    loop
        invariant_except_break
            chars.obeys_prophetic_iter_laws(),
            v@.len() <= s@.len(),
            chars.remaining() == s@.skip(v@.len() as int),
            v@ == s@.take(v@.len() as int),
            chars.decrease() is Some,
        ensures
            v@ == s@,
        decreases chars.decrease()->0,
    {
        let ghost before = chars.remaining();
        let ghost seen = v@.len() as int;
        match chars.next() {
            Some(c) => {
                proof {
                    assert(before.len() > 0);
                    assert(before.skip(1) == s@.skip(seen + 1));
                    assert(c == s@[seen]);
                }
                v.push(c);
                proof {
                    assert(v@ =~= s@.take(seen + 1));
                }
            },
            None => {
                proof {
                    assert(before.len() == 0);
                    assert(s@.take(seen) =~= s@);
                }
                break ;
            },
        }
    }
    v
}

/// Counts the placeholders of `sql`.
pub fn count_placeholders(sql: &str) -> (n: usize)
    ensures
        n == placeholders(sql@).len(),
{
    let chars = to_chars(sql);
    let mut i: usize = 0;
    let mut n: usize = 0;
    proof {
        assert(sql@.skip(0) == sql@);
    }
    while i < chars.len()
        invariant
            chars@ == sql@,
            i <= chars.len(),
            n <= i,
            n + placeholders(sql@.skip(i as int)).len() == placeholders(sql@).len(),
        decreases chars.len() - i,
    {
        proof {
            assert(sql@.skip(i as int)[0] == sql@[i as int]);
            assert(sql@.skip(i as int).skip(1) == sql@.skip(i + 1));
        }
        if chars[i] == '$' {
            n = n + 1;
        }
        i = i + 1;
    }
    n
}

} // verus!
