use vstd::prelude::*;

verus! {

/// The text that stands for one character of an address in a URL path:
/// `,` `:` `[` `]` become their percent escapes, a double quote is dropped,
/// and every other character stands for itself.
pub open spec fn escape_char(c: char) -> Seq<char> {
    if c == ',' {
        seq!['%', '2', 'C']
    } else if c == ':' {
        seq!['%', '3', 'A']
    } else if c == '[' {
        seq!['%', '5', 'B']
    } else if c == ']' {
        seq!['%', '5', 'D']
    } else if c == '"' {
        Seq::empty()
    } else {
        seq![c]
    }
}

/// The URL-safe form of a text: each character replaced by its escape.
pub open spec fn url_escape(s: Seq<char>) -> Seq<char>
    decreases s.len(),
{
    if s.len() == 0 {
        Seq::empty()
    } else {
        escape_char(s[0]) + url_escape(s.skip(1))
    }
}

/// The character that the escape `%` `d1` `d2` stands for, if it is one of
/// the four escapes that `escape_char` writes.
pub open spec fn unescape_pair(d1: char, d2: char) -> Option<char> {
    if d1 == '2' && d2 == 'C' {
        Some(',')
    } else if d1 == '3' && d2 == 'A' {
        Some(':')
    } else if d1 == '5' && d2 == 'B' {
        Some('[')
    } else if d1 == '5' && d2 == 'D' {
        Some(']')
    } else {
        None
    }
}

/// The text that a URL-safe form stands for, read from left to right: each of
/// the four escapes becomes its character, every other character stays.
pub open spec fn url_unescape(s: Seq<char>) -> Seq<char>
    decreases s.len(),
{
    if s.len() == 0 {
        Seq::empty()
    } else if s.len() >= 3 && s[0] == '%' && unescape_pair(s[1], s[2]) is Some {
        seq![unescape_pair(s[1], s[2])->0] + url_unescape(s.skip(3))
    } else {
        seq![s[0]] + url_unescape(s.skip(1))
    }
}

fn unescape_pair_exec(d1: char, d2: char) -> (r: Option<char>)
    ensures
        r == unescape_pair(d1, d2),
{
    if d1 == '2' && d2 == 'C' {
        Some(',')
    } else if d1 == '3' && d2 == 'A' {
        Some(':')
    } else if d1 == '5' && d2 == 'B' {
        Some('[')
    } else if d1 == '5' && d2 == 'D' {
        Some(']')
    } else {
        None
    }
}

/// Makes the text of an address fit into a URL path: `,` `:` `[` `]` are
/// percent-escaped and double quotes are removed.
pub fn url_safe(text: &str) -> (r: String)
    ensures
        r@ == url_escape(text@),
{
    let n = text.unicode_len();
    let mut out = String::new();
    let mut i: usize = 0;
    proof {
        assert(text@.skip(0) =~= text@);
    }
    while i < n
        invariant
            n == text@.len(),
            i <= n,
            out@ + url_escape(text@.skip(i as int)) == url_escape(text@),
        decreases n - i,
    {
        let c = text.get_char(i);
        let ghost before = out@;
        proof {
            reveal_strlit("%2C");
            reveal_strlit("%3A");
            reveal_strlit("%5B");
            reveal_strlit("%5D");
        }
        if c == ',' {
            out.append("%2C");
        } else if c == ':' {
            out.append("%3A");
        } else if c == '[' {
            out.append("%5B");
        } else if c == ']' {
            out.append("%5D");
        } else if c == '"' {
        } else {
            out.append(text.substring_char(i, i + 1));
        }
        proof {
            let rest = text@.skip(i as int);
            assert(rest[0] == c);
            assert(rest.skip(1) =~= text@.skip(i + 1));
            assert(out@ =~= before + escape_char(c));
            assert(out@ + url_escape(text@.skip(i + 1)) =~= before + url_escape(rest));
        }
        i = i + 1;
    }
    proof {
        assert(text@.skip(n as int) =~= Seq::<char>::empty());
        assert(out@ + Seq::<char>::empty() =~= out@);
    }
    out
}

/// Undoes `url_safe` on the text of an address: the four percent escapes are
/// turned back into `,` `:` `[` `]`.
pub fn from_url_safe(text: &str) -> (r: String)
    ensures
        r@ == url_unescape(text@),
{
    let n = text.unicode_len();
    let mut out = String::new();
    let mut i: usize = 0;
    proof {
        assert(text@.skip(0) =~= text@);
    }
    while i < n
        invariant
            n == text@.len(),
            i <= n,
            out@ + url_unescape(text@.skip(i as int)) == url_unescape(text@),
        decreases n - i,
    {
        let ghost before = out@;
        let ghost rest = text@.skip(i as int);
        let c = text.get_char(i);
        proof {
            reveal_strlit(",");
            reveal_strlit(":");
            reveal_strlit("[");
            reveal_strlit("]");
        }
        let mut decoded: Option<char> = None;
        if c == '%' && n - i >= 3 {
            decoded = unescape_pair_exec(text.get_char(i + 1), text.get_char(i + 2));
        }
        match decoded {
            Some(d) => {
                if d == ',' {
                    out.append(",");
                } else if d == ':' {
                    out.append(":");
                } else if d == '[' {
                    out.append("[");
                } else {
                    out.append("]");
                }
                proof {
                    assert(rest.skip(3) =~= text@.skip(i + 3));
                    assert(out@ =~= before + seq![d]);
                    assert(out@ + url_unescape(text@.skip(i + 3)) =~= before + url_unescape(rest));
                }
                i = i + 3;
            },
            None => {
                out.append(text.substring_char(i, i + 1));
                proof {
                    assert(rest.skip(1) =~= text@.skip(i + 1));
                    assert(out@ =~= before + seq![c]);
                    assert(out@ + url_unescape(text@.skip(i + 1)) =~= before + url_unescape(rest));
                }
                i = i + 1;
            },
        }
    }
    proof {
        assert(text@.skip(n as int) =~= Seq::<char>::empty());
        assert(out@ + Seq::<char>::empty() =~= out@);
    }
    out
}

/// Wraps the text of an address in double quotes, the form in which a JSON
/// document holds it.
pub fn quoted(text: &str) -> (r: String)
    ensures
        r@ == seq!['"'] + text@ + seq!['"'],
{
    let mut out = String::from_str("\"");
    out.append(text);
    out.append("\"");
    proof {
        reveal_strlit("\"");
    }
    out
}

/// Decoding the URL-safe form gives back the text, for every text that holds
/// no `%` and no double quote (the text of a socket address holds neither).
pub proof fn lemma_url_safe_round_trip(s: Seq<char>)
    requires
        !s.contains('%'),
        !s.contains('"'),
    ensures
        url_unescape(url_escape(s)) == s,
    decreases s.len(),
{
    if s.len() > 0 {
        let c = s[0];
        let tail = s.skip(1);
        assert forall|x: char| tail.contains(x) implies s.contains(x) by {
            let k = choose|k: int| 0 <= k < tail.len() && tail[k] == x;
            assert(s[k + 1] == x);
        }
        lemma_url_safe_round_trip(tail);
        let e = escape_char(c);
        let rest = url_escape(tail);
        assert(url_escape(s) == e + rest);
        assert(s.contains(c));
        if c == ',' || c == ':' || c == '[' || c == ']' {
            assert((e + rest).skip(3) =~= rest);
            assert(url_unescape(e + rest) =~= seq![c] + tail);
        } else {
            assert((e + rest).skip(1) =~= rest);
            assert(url_unescape(e + rest) =~= seq![c] + tail);
        }
        assert(seq![c] + tail =~= s);
    } else {
        assert(url_escape(s) =~= Seq::<char>::empty());
        assert(s =~= Seq::<char>::empty());
    }
}

/// The URL-safe form holds none of the characters that it escapes or drops.
pub proof fn lemma_url_safe_has_no_reserved(s: Seq<char>)
    ensures
        !url_escape(s).contains(','),
        !url_escape(s).contains(':'),
        !url_escape(s).contains('['),
        !url_escape(s).contains(']'),
        !url_escape(s).contains('"'),
    decreases s.len(),
{
    if s.len() > 0 {
        lemma_url_safe_has_no_reserved(s.skip(1));
        let e = escape_char(s[0]);
        let rest = url_escape(s.skip(1));
        assert forall|x: char|
            (x == ',' || x == ':' || x == '[' || x == ']' || x == '"') implies !(e + rest).contains(x) by {
            if (e + rest).contains(x) {
                let k = choose|k: int| 0 <= k < (e + rest).len() && (e + rest)[k] == x;
                if k < e.len() {
                    assert(e[k] == x);
                } else {
                    assert(rest[k - e.len()] == x);
                }
            }
        }
    }
}

/// The URL-safe form of two texts one after the other is the URL-safe form
/// of the first followed by that of the second.
pub proof fn lemma_url_escape_concat(a: Seq<char>, b: Seq<char>)
    ensures
        url_escape(a + b) == url_escape(a) + url_escape(b),
    decreases a.len(),
{
    if a.len() == 0 {
        assert(a + b =~= b);
        assert(Seq::<char>::empty() + url_escape(b) =~= url_escape(b));
    } else {
        lemma_url_escape_concat(a.skip(1), b);
        assert((a + b)[0] == a[0]);
        assert((a + b).skip(1) =~= a.skip(1) + b);
        assert(escape_char(a[0]) + (url_escape(a.skip(1)) + url_escape(b)) =~= (escape_char(a[0])
            + url_escape(a.skip(1))) + url_escape(b));
    }
}

/// A double quote after a text does not join any escape of the text, so it
/// comes out of the decoding as it went in.
proof fn lemma_url_unescape_quote_after(e: Seq<char>)
    ensures
        url_unescape(e.push('"')) == url_unescape(e).push('"'),
    decreases e.len(),
{
    let q = e.push('"');
    if e.len() == 0 {
        assert(q.skip(1) =~= Seq::<char>::empty());
        assert(url_unescape(Seq::<char>::empty()) =~= Seq::<char>::empty());
        assert(url_unescape(q) =~= seq!['"']);
    } else if e.len() >= 3 && e[0] == '%' && unescape_pair(e[1], e[2]) is Some {
        assert(q.skip(3) =~= e.skip(3).push('"'));
        lemma_url_unescape_quote_after(e.skip(3));
        assert(url_unescape(q) =~= url_unescape(e).push('"'));
    } else {
        assert(q.skip(1) =~= e.skip(1).push('"'));
        lemma_url_unescape_quote_after(e.skip(1));
        assert(!(q.len() >= 3 && q[0] == '%' && unescape_pair(q[1], q[2]) is Some));
        assert(url_unescape(q) =~= url_unescape(e).push('"'));
    }
}

/// The JSON string of an address survives the trip through a URL: made
/// URL-safe (which drops its quotes), quoted again and decoded, it comes back
/// as it was, for every address text that holds no `%` and no double quote.
pub proof fn lemma_quoted_url_round_trip(text: Seq<char>)
    requires
        !text.contains('%'),
        !text.contains('"'),
    ensures
        url_unescape(seq!['"'] + url_escape(seq!['"'] + text + seq!['"']) + seq!['"']) == seq!['"']
            + text + seq!['"'],
{
    let q = seq!['"'];
    lemma_url_escape_concat(q, text);
    lemma_url_escape_concat(q + text, q);
    assert(q.skip(1) =~= Seq::<char>::empty());
    assert(url_escape(Seq::<char>::empty()) =~= Seq::<char>::empty());
    assert(escape_char(q[0]) =~= Seq::<char>::empty());
    assert(url_escape(q) =~= Seq::<char>::empty());
    let e = url_escape(text);
    assert(url_escape(q + text + q) =~= e);
    lemma_url_safe_round_trip(text);
    lemma_url_unescape_quote_after(q + e);
    assert(q + e + q =~= (q + e).push('"'));
    assert((q + e).skip(1) =~= e);
    assert(url_unescape(q + e) =~= q + url_unescape(e));
    assert(q + text + q =~= (q + text).push('"'));
}

/// Whether the URL-safe form touches the character: the four characters that
/// are percent-escaped, and the double quote, which is dropped.
pub open spec fn is_reserved(c: char) -> bool {
    c == ',' || c == ':' || c == '[' || c == ']' || c == '"'
}

/// The upper-case hexadecimal digit of a number below sixteen.
pub open spec fn upper_hex_digit(n: int) -> char {
    if n < 10 {
        (('0' as int) + n) as char
    } else {
        (('A' as int) + n - 10) as char
    }
}

/// Every character that is not reserved stands for itself in the URL-safe
/// form: a text without reserved characters is its own URL-safe form.
pub proof fn lemma_url_safe_keeps_plain_text(s: Seq<char>)
    requires
        forall|i: int| 0 <= i < s.len() ==> !is_reserved(#[trigger] s[i]),
    ensures
        url_escape(s) == s,
    decreases s.len(),
{
    if s.len() > 0 {
        let tail = s.skip(1);
        assert forall|i: int| 0 <= i < tail.len() implies !is_reserved(#[trigger] tail[i]) by {
            assert(tail[i] == s[i + 1]);
        }
        lemma_url_safe_keeps_plain_text(tail);
        assert(!is_reserved(s[0]));
        assert(seq![s[0]] + tail =~= s);
    } else {
        assert(s =~= Seq::<char>::empty());
    }
}

/// Each of the four escaped characters is written as a percent escape: `%`
/// followed by the two upper-case hexadecimal digits of its code; a double
/// quote is written as nothing.
pub proof fn lemma_url_safe_percent_encodes(c: char)
    requires
        is_reserved(c),
    ensures
        c == '"' ==> url_escape(seq![c]) == Seq::<char>::empty(),
        c != '"' ==> url_escape(seq![c]) == seq![
            '%',
            upper_hex_digit((c as int) / 16),
            upper_hex_digit((c as int) % 16),
        ],
{
    assert(seq![c].skip(1) =~= Seq::<char>::empty());
    assert(url_escape(Seq::<char>::empty()) =~= Seq::<char>::empty());
    assert(url_escape(seq![c]) =~= escape_char(c));
    assert(upper_hex_digit(2) == '2');
    assert(upper_hex_digit(12) == 'C');
    assert(upper_hex_digit(3) == '3');
    assert(upper_hex_digit(10) == 'A');
    assert(upper_hex_digit(5) == '5');
    assert(upper_hex_digit(11) == 'B');
    assert(upper_hex_digit(13) == 'D');
    assert((',' as int) == 44);
    assert((':' as int) == 58);
    assert(('[' as int) == 91);
    assert((']' as int) == 93);
}

/// A text without `%` is its own decoding: decoding changes only escapes.
pub proof fn lemma_from_url_safe_keeps_plain_text(s: Seq<char>)
    requires
        !s.contains('%'),
    ensures
        url_unescape(s) == s,
    decreases s.len(),
{
    if s.len() > 0 {
        let tail = s.skip(1);
        assert forall|x: char| tail.contains(x) implies s.contains(x) by {
            let k = choose|k: int| 0 <= k < tail.len() && tail[k] == x;
            assert(s[k + 1] == x);
        }
        lemma_from_url_safe_keeps_plain_text(tail);
        assert(s.contains(s[0]));
        assert(seq![s[0]] + tail =~= s);
    } else {
        assert(s =~= Seq::<char>::empty());
    }
}

} // verus!
