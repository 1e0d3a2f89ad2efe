//! Pieces of JSON text: string literals and the canonical form of a JSON
//! value come from `serde_json`; decimal numbers, booleans and comma-separated
//! lists are written here.
use vstd::prelude::*;

verus! {

/// The lower-case hexadecimal digit for `d < 16`.
pub open spec fn hex_digit(d: nat) -> char {
    if d < 10 {
        digit_char(d)
    } else if d == 10 {
        'a'
    } else if d == 11 {
        'b'
    } else if d == 12 {
        'c'
    } else if d == 13 {
        'd'
    } else if d == 14 {
        'e'
    } else {
        'f'
    }
}

/// How one character stands inside a JSON string literal: the quote and the
/// backslash are escaped by a backslash, the control characters below U+0020
/// by their short escape (`\b \t \n \f \r`) or else as `\u00` and two
/// lower-case hexadecimal digits; every other character stands for itself.
pub open spec fn json_escaped_char(c: char) -> Seq<char> {
    if c == '"' {
        seq!['\\', '"']
    } else if c == '\\' {
        seq!['\\', '\\']
    } else if c == '\u{8}' {
        seq!['\\', 'b']
    } else if c == '\t' {
        seq!['\\', 't']
    } else if c == '\n' {
        seq!['\\', 'n']
    } else if c == '\u{c}' {
        seq!['\\', 'f']
    } else if c == '\r' {
        seq!['\\', 'r']
    } else if (c as u32) < 0x20 {
        seq!['\\', 'u', '0', '0', hex_digit((c as u32 / 16) as nat), hex_digit((c as u32 % 16) as nat)]
    } else {
        seq![c]
    }
}

/// The characters of `s`, each as it stands inside a JSON string literal.
pub open spec fn json_escaped(s: Seq<char>) -> Seq<char>
    decreases s.len(),
{
    if s.len() == 0 {
        Seq::empty()
    } else {
        json_escaped(s.drop_last()) + json_escaped_char(s.last())
    }
}

/// The JSON string literal for `s`: its escaped characters between quotes.
pub open spec fn json_quoted(s: Seq<char>) -> Seq<char> {
    seq!['"'] + json_escaped(s) + seq!['"']
}

/// The compact text that `serde_json` writes for the JSON value that the text
/// `s` holds, or `None` where `s` is not a JSON document.
pub uninterp spec fn json_reserialized(s: Seq<char>) -> Option<Seq<char>>;

/// Calls `serde_json::to_string` on a string slice: the JSON string literal
/// for `s`, escaped as `json_quoted` says (the escape table of
/// `serde_json::ser`). Serialising a `str` cannot fail, so the fallback to an
/// empty string is never taken.
#[verifier::external_body]
pub(crate) fn json_quote(s: &str) -> (res: String)
    ensures
        res@ == json_quoted(s@),
{
    serde_json::to_string(s).unwrap_or_default()
}

/// Calls `serde_json::from_str::<serde_json::Value>` on `s` and, where that
/// succeeds, writes the value back with its `Display` impl (compact form).
/// The contract claims that the result is `json_reserialized(s@)`, a function
/// of `s` alone, and that the text `{}` (an empty object) is written back as
/// `{}`.
#[verifier::external_body]
pub(crate) fn json_reserialize(s: &str) -> (res: Option<String>)
    ensures
        json_reserialized(s@) == match res {
            Some(r) => Some(r@),
            None => None,
        },
        s@ == "{}"@ ==> res is Some && res.unwrap()@ == "{}"@,
{
    match serde_json::from_str::<serde_json::Value>(s) {
        Ok(v) => Some(v.to_string()),
        Err(_) => None,
    }
}

/// Whether `t` is the text `serde_json` writes for some JSON value.
pub open spec fn is_written_json(t: Seq<char>) -> bool {
    exists|s: Seq<char>| json_reserialized(s) == Some(t)
}

/// A JSON value, held as the compact text `serde_json` writes for it.
#[derive(Debug)]
pub struct JsonText {
    text: String,
}

impl View for JsonText {
    type V = Seq<char>;

    closed spec fn view(&self) -> Seq<char> {
        self.text@
    }
}

impl JsonText {
    /// The text is always what `serde_json` writes for some value.
    #[verifier::type_invariant]
    closed spec fn is_written(&self) -> bool {
        is_written_json(self.text@)
    }

    /// Parses `s` as a JSON document and holds the value's compact text; `None`
    /// where `s` is not a JSON document.
    pub fn parse(s: &str) -> (res: Option<JsonText>)
        ensures
            json_reserialized(s@) == match res {
                Some(j) => Some(j@),
                None => None,
            },
    {
        match json_reserialize(s) {
            Some(t) => {
                assert(json_reserialized(s@) == Some(t@));
                Some(JsonText { text: t })
            },
            None => None,
        }
    }

    /// The empty object `{}`.
    pub fn empty_object() -> (res: JsonText)
        ensures
            res@ == "{}"@,
    {
        let r = json_reserialize("{}");
        match r {
            Some(t) => {
                assert(json_reserialized("{}"@) == Some(t@));
                JsonText { text: t }
            },
            None => {
                assert(false);
                JsonText { text: String::new() }
            },
        }
    }

    /// The compact text of the value.
    pub fn as_str(&self) -> (res: &str)
        ensures
            res@ == self@,
            is_written_json(self@),
    {
        proof {
            use_type_invariant(self);
        }
        self.text.as_str()
    }
}

impl Clone for JsonText {
    fn clone(&self) -> (res: Self)
        ensures
            res@ == self@,
    {
        proof {
            use_type_invariant(self);
        }
        JsonText { text: self.text.clone() }
    }
}

/// The decimal digit character for `d < 10`.
pub open spec fn digit_char(d: nat) -> char {
    if d == 0 {
        '0'
    } else if d == 1 {
        '1'
    } else if d == 2 {
        '2'
    } else if d == 3 {
        '3'
    } else if d == 4 {
        '4'
    } else if d == 5 {
        '5'
    } else if d == 6 {
        '6'
    } else if d == 7 {
        '7'
    } else if d == 8 {
        '8'
    } else {
        '9'
    }
}

/// The decimal notation of `n`, without sign or leading zeros.
pub open spec fn decimal(n: nat) -> Seq<char>
    decreases n,
{
    if n < 10 {
        seq![digit_char(n)]
    } else {
        decimal(n / 10) + seq![digit_char(n % 10)]
    }
}

fn digit_str(d: u32) -> (res: &'static str)
    requires
        d < 10,
    ensures
        res@ == seq![digit_char(d as nat)],
{
    proof {
        reveal_strlit("0");
        reveal_strlit("1");
        reveal_strlit("2");
        reveal_strlit("3");
        reveal_strlit("4");
        reveal_strlit("5");
        reveal_strlit("6");
        reveal_strlit("7");
        reveal_strlit("8");
        reveal_strlit("9");
    }
    let r = if d == 0 {
        "0"
    } else if d == 1 {
        "1"
    } else if d == 2 {
        "2"
    } else if d == 3 {
        "3"
    } else if d == 4 {
        "4"
    } else if d == 5 {
        "5"
    } else if d == 6 {
        "6"
    } else if d == 7 {
        "7"
    } else if d == 8 {
        "8"
    } else {
        "9"
    };
    assert(r@ =~= seq![digit_char(d as nat)]);
    r
}

/// Appends the decimal notation of `n` to `out`.
pub fn push_decimal(out: &mut String, n: u32)
    ensures
        final(out)@ == old(out)@ + decimal(n as nat),
    decreases n,
{
    if n < 10 {
        out.append(digit_str(n));
    } else {
        push_decimal(out, n / 10);
        out.append(digit_str(n % 10));
        assert(old(out)@ + decimal(n as nat) =~= old(out)@ + decimal((n / 10) as nat) + seq![
            digit_char((n % 10) as nat),
        ]);
    }
}

/// The JSON text of a boolean.
pub open spec fn json_bool(b: bool) -> Seq<char> {
    if b {
        "true"@
    } else {
        "false"@
    }
}

/// The items of `items` separated by commas.
pub open spec fn join_commas(items: Seq<Seq<char>>) -> Seq<char>
    decreases items.len(),
{
    if items.len() == 0 {
        Seq::empty()
    } else if items.len() == 1 {
        items[0]
    } else {
        join_commas(items.drop_last()) + ","@ + items.last()
    }
}

/// The step of `join_commas` that adds one more item.
pub proof fn lemma_join_commas_push(items: Seq<Seq<char>>, i: int)
    requires
        0 <= i < items.len(),
    ensures
        join_commas(items.take(i + 1)) == if i == 0 {
            items[0]
        } else {
            join_commas(items.take(i)) + ","@ + items[i]
        },
{
    assert(items.take(i + 1).drop_last() =~= items.take(i));
}

/// The number a string of decimal digits denotes.
pub open spec fn digits_value(s: Seq<char>) -> int
    decreases s.len(),
{
    if s.len() == 0 {
        0
    } else {
        digits_value(s.drop_last()) * 10 + (s.last() as int - '0' as int)
    }
}

/// The decimal notation of `n` is made of digits, has no leading zero unless
/// it is `0` itself, and denotes `n`.
pub proof fn lemma_decimal_denotes(n: nat)
    ensures
        decimal(n).len() > 0,
        forall|i: int| 0 <= i < decimal(n).len() ==> '0' <= #[trigger] decimal(n)[i] <= '9',
        decimal(n)[0] == '0' ==> n == 0,
        digits_value(decimal(n)) == n,
    decreases n,
{
    if n < 10 {
        let d = decimal(n);
        assert(d == seq![digit_char(n)]);
        assert(d.drop_last() =~= Seq::<char>::empty());
        assert(digits_value(d.drop_last()) == 0);
        assert(d.last() == digit_char(n));
        assert(digit_char(n) as int - '0' as int == n);
        assert(digits_value(d) == digits_value(d.drop_last()) * 10 + (d.last() as int - '0' as int));
    } else {
        let q = n / 10;
        let r = n % 10;
        lemma_decimal_denotes(q);
        assert(decimal(n).drop_last() =~= decimal(q));
        assert(n == q * 10 + r) by (nonlinear_arith)
            requires
                q == n / 10,
                r == n % 10,
        ;
        assert(digit_char(r) as int - '0' as int == r);
        assert(decimal(n).last() == digit_char(r));
        assert(digits_value(decimal(n)) == digits_value(decimal(n).drop_last()) * 10 + (decimal(
            n,
        ).last() as int - '0' as int));
        assert(digits_value(decimal(n)) == digits_value(decimal(q)) * 10 + r);
    }
}

/// Whether `x` stands somewhere in `y` as a contiguous run.
#[verifier::opaque]
pub open spec fn occurs_in(x: Seq<char>, y: Seq<char>) -> bool {
    exists|k: int| 0 <= k && k + x.len() <= y.len() && #[trigger] y.subrange(k, k + x.len()) == x
}

/// A text stands in any text built around it.
pub proof fn lemma_occurs_between(a: Seq<char>, x: Seq<char>, b: Seq<char>)
    ensures
        occurs_in(x, a + x + b),
{
    reveal(occurs_in);
    let y = a + x + b;
    assert(y.subrange(a.len() as int, (a.len() + x.len()) as int) =~= x);
}

/// Standing in is transitive.
pub proof fn lemma_occurs_trans(x: Seq<char>, y: Seq<char>, z: Seq<char>)
    requires
        occurs_in(x, y),
        occurs_in(y, z),
    ensures
        occurs_in(x, z),
{
    reveal(occurs_in);
    let k1 = choose|k: int| 0 <= k && k + x.len() <= y.len() && #[trigger] y.subrange(k, k + x.len()) == x;
    let k2 = choose|k: int| 0 <= k && k + y.len() <= z.len() && #[trigger] z.subrange(k, k + y.len()) == y;
    assert(z.subrange(k2 + k1, k2 + k1 + x.len()) =~= y.subrange(k1, k1 + x.len()));
}

/// Every item stands in the comma-separated list of the items.
pub proof fn lemma_join_commas_holds_each(items: Seq<Seq<char>>)
    ensures
        forall|i: int| 0 <= i < items.len() ==> occurs_in(#[trigger] items[i], join_commas(items)),
    decreases items.len(),
{
    if items.len() == 1 {
        assert forall|i: int| 0 <= i < items.len() implies occurs_in(#[trigger] items[i], join_commas(items)) by {
            lemma_occurs_between(Seq::empty(), items[0], Seq::empty());
            assert(Seq::<char>::empty() + items[0] + Seq::<char>::empty() =~= items[0]);
        }
    } else if items.len() > 1 {
        let p = items.drop_last();
        lemma_join_commas_holds_each(p);
        let j = join_commas(items);
        assert forall|i: int| 0 <= i < items.len() implies occurs_in(#[trigger] items[i], j) by {
            if i == items.len() - 1 {
                lemma_occurs_between(join_commas(p) + ","@, items.last(), Seq::empty());
                assert(join_commas(p) + ","@ + items.last() + Seq::<char>::empty() =~= j);
            } else {
                assert(items[i] == p[i]);
                lemma_occurs_between(Seq::empty(), join_commas(p), ","@ + items.last());
                assert(Seq::<char>::empty() + join_commas(p) + (","@ + items.last()) =~= j);
                lemma_occurs_trans(items[i], join_commas(p), j);
            }
        }
    }
}

// ---------- Escaping loses nothing ----------

/// The value of a lower-case hexadecimal digit.
pub open spec fn hex_value(c: char) -> int {
    if '0' <= c <= '9' {
        c as int - '0' as int
    } else {
        c as int - 'a' as int + 10
    }
}

/// The character a two-character escape `\x` stands for.
pub open spec fn short_escape_value(x: char) -> char {
    if x == 'b' {
        '\u{8}'
    } else if x == 't' {
        '\t'
    } else if x == 'n' {
        '\n'
    } else if x == 'f' {
        '\u{c}'
    } else if x == 'r' {
        '\r'
    } else {
        x
    }
}

/// Reads the inside of a JSON string literal back: a backslash and `u`
/// followed by four hexadecimal digits stand for that code point, a backslash
/// and another character for the character it escapes, and any other
/// character for itself.
pub open spec fn json_unescaped(s: Seq<char>) -> Seq<char>
    decreases s.len(),
{
    if s.len() == 0 {
        Seq::empty()
    } else if s[0] != '\\' || s.len() < 2 {
        seq![s[0]] + json_unescaped(s.skip(1))
    } else if s[1] == 'u' && s.len() >= 6 {
        seq![(hex_value(s[4]) * 16 + hex_value(s[5])) as char] + json_unescaped(s.skip(6))
    } else {
        seq![short_escape_value(s[1])] + json_unescaped(s.skip(2))
    }
}

proof fn lemma_hex_digit_value(d: nat)
    requires
        d < 16,
    ensures
        hex_value(hex_digit(d)) == d,
{
}

proof fn lemma_unescape_one(c: char, rest: Seq<char>)
    ensures
        json_unescaped(json_escaped_char(c) + rest) == seq![c] + json_unescaped(rest),
{
    let e = json_escaped_char(c);
    let s = e + rest;
    assert(s.skip(e.len() as int) =~= rest);
    if e.len() == 6 {
        let n = c as u32;
        lemma_hex_digit_value((n / 16) as nat);
        lemma_hex_digit_value((n % 16) as nat);
        assert(s[4] == hex_digit((n / 16) as nat));
        assert(s[5] == hex_digit((n % 16) as nat));
        assert((n / 16) * 16 + n % 16 == n);
        assert(((hex_value(s[4]) * 16 + hex_value(s[5])) as char) == c);
    }
}

proof fn lemma_escaped_front(s: Seq<char>)
    requires
        s.len() > 0,
    ensures
        json_escaped(s) == json_escaped_char(s[0]) + json_escaped(s.skip(1)),
    decreases s.len(),
{
    if s.len() == 1 {
        assert(s.drop_last() =~= Seq::<char>::empty());
        assert(s.skip(1) =~= Seq::<char>::empty());
        assert(json_escaped(s) =~= json_escaped_char(s[0]) + json_escaped(s.skip(1)));
    } else {
        let p = s.drop_last();
        lemma_escaped_front(p);
        assert(p.skip(1) =~= s.skip(1).drop_last());
        assert(s.skip(1).last() == s.last());
        assert(json_escaped(s) =~= json_escaped_char(s[0]) + json_escaped(s.skip(1)));
    }
}

/// Escaping loses nothing: reading the escaped characters of `s` back gives
/// `s` itself, so different strings are written as different literals.
pub proof fn lemma_json_escaped_reads_back(s: Seq<char>)
    ensures
        json_unescaped(json_escaped(s)) == s,
    decreases s.len(),
{
    if s.len() > 0 {
        lemma_escaped_front(s);
        lemma_json_escaped_reads_back(s.skip(1));
        lemma_unescape_one(s[0], json_escaped(s.skip(1)));
        assert(seq![s[0]] + s.skip(1) =~= s);
    }
}

/// Every character is written safely inside a JSON string literal: the
/// written text holds no control character, never begins with a quote, is the
/// character itself only when it is neither a quote, a backslash nor a control
/// character, and otherwise is an escape that begins with a backslash.
pub proof fn lemma_escape_is_safe(c: char)
    ensures
        forall|k: int|
            0 <= k < json_escaped_char(c).len() ==> #[trigger] json_escaped_char(c)[k] as u32
                >= 0x20,
        json_escaped_char(c).len() > 0,
        json_escaped_char(c)[0] != '"',
        json_escaped_char(c).len() == 1 ==> json_escaped_char(c)[0] == c && c != '"' && c != '\\'
            && c as u32 >= 0x20,
        json_escaped_char(c).len() > 1 ==> json_escaped_char(c)[0] == '\\',
{
}

} // verus!
