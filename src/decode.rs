use vstd::prelude::*;

use crate::export::{
    hex_digit, json_char_escape, json_elements, json_escaped, json_export, json_object,
    json_string_literal,
};

verus! {

/// The value of a hexadecimal digit, either case, or -1 for another character.
pub open spec fn hex_value(d: char) -> int {
    let n = d as u32 as int;
    if 48 <= n <= 57 {
        n - 48
    } else if 97 <= n <= 102 {
        n - 87
    } else if 65 <= n <= 70 {
        n - 55
    } else {
        -1
    }
}

/// The character that a one-letter JSON escape `\e` stands for.
pub open spec fn short_escape(e: char) -> Option<char> {
    if e == '"' {
        Some('"')
    } else if e == '\\' {
        Some('\\')
    } else if e == '/' {
        Some('/')
    } else if e == 'b' {
        Some('\u{8}')
    } else if e == 'f' {
        Some('\u{c}')
    } else if e == 'n' {
        Some('\n')
    } else if e == 'r' {
        Some('\r')
    } else if e == 't' {
        Some('\t')
    } else {
        None
    }
}

/// The code point of a character.
pub open spec fn code_point(c: char) -> int {
    c as u32 as int
}

/// The code point written by the four hexadecimal digits that follow `\u`.
pub open spec fn unicode_escape_value(t: Seq<char>) -> int {
    4096 * hex_value(t[2]) + 256 * hex_value(t[3]) + 16 * hex_value(t[4]) + hex_value(t[5])
}

/// Reads the inside of a JSON string, up to and without its closing quote,
/// by the escapes of JSON: the text it stands for and what follows the quote.
pub open spec fn read_string_body(t: Seq<char>) -> Option<(Seq<char>, Seq<char>)>
    decreases t.len(),
{
    if t.len() == 0 {
        None
    } else if t[0] == '"' {
        Some((Seq::empty(), t.drop_first()))
    } else if t[0] == '\\' {
        if t.len() >= 6 && t[1] == 'u' && hex_value(t[2]) >= 0 && hex_value(t[3]) >= 0
            && hex_value(t[4]) >= 0 && hex_value(t[5]) >= 0 && exists|c: char|
            #[trigger] code_point(c) == unicode_escape_value(t) {
            let c = choose|c: char| #[trigger] code_point(c) == unicode_escape_value(t);
            match read_string_body(t.subrange(6, t.len() as int)) {
                Some((s, rest)) => Some((seq![c] + s, rest)),
                None => None,
            }
        } else if t.len() >= 2 && short_escape(t[1]) is Some {
            match read_string_body(t.subrange(2, t.len() as int)) {
                Some((s, rest)) => Some((seq![short_escape(t[1])->0] + s, rest)),
                None => None,
            }
        } else {
            None
        }
    } else {
        match read_string_body(t.drop_first()) {
            Some((s, rest)) => Some((seq![t[0]] + s, rest)),
            None => None,
        }
    }
}

/// Reads one JSON string at the start of `t`: its text and what follows it.
pub open spec fn read_json_string(t: Seq<char>) -> Option<(Seq<char>, Seq<char>)> {
    if t.len() > 0 && t[0] == '"' {
        read_string_body(t.drop_first())
    } else {
        None
    }
}

proof fn lemma_hex_round_trip(n: int)
    requires
        0 <= n < 16,
    ensures
        hex_value(hex_digit(n)) == n,
{
    let digits = seq!['0', '1', '2', '3', '4', '5', '6', '7', '8', '9', 'a', 'b', 'c', 'd', 'e', 'f'];
    assert(hex_digit(n) == digits[n]);
}

/// An escaped text followed by a quote reads back as the text, and reading
/// stops right after that quote.
proof fn lemma_read_escaped(s: Seq<char>, rest: Seq<char>)
    ensures
        read_string_body(json_escaped(s) + seq!['"'] + rest) == Some((s, rest)),
    decreases s.len(),
{
    let t = json_escaped(s) + seq!['"'] + rest;
    if s.len() == 0 {
        assert(json_escaped(s) =~= Seq::<char>::empty());
        assert(t.drop_first() =~= rest);
        assert(s =~= Seq::<char>::empty());
    } else {
        let c = s[0];
        let s1 = s.drop_first();
        let tail = json_escaped(s1) + seq!['"'] + rest;
        let e = json_char_escape(c);
        assert(t =~= e + tail);
        lemma_read_escaped(s1, rest);
        assert(seq![c] + s1 =~= s);
        if c == '"' || c == '\\' || c == '\u{8}' || c == '\t' || c == '\n' || c == '\u{c}' || c
            == '\r' {
            assert(t[0] == '\\' && t[1] == e[1] && e[1] != 'u');
            assert(short_escape(t[1]) == Some(c));
            assert(t.subrange(2, t.len() as int) =~= tail);
        } else if (c as u32) < 0x20 {
            let v = c as u32 as int;
            lemma_hex_round_trip(v / 16);
            lemma_hex_round_trip(v % 16);
            assert(t[0] == '\\' && t[1] == 'u' && t[2] == '0' && t[3] == '0');
            assert(t[4] == hex_digit(v / 16) && t[5] == hex_digit(v % 16));
            assert(hex_value('0') == 0);
            assert(unicode_escape_value(t) == v);
            assert(t.subrange(6, t.len() as int) =~= tail);
            assert(code_point(c) == unicode_escape_value(t));
            let d = choose|d: char| #[trigger] code_point(d) == unicode_escape_value(t);
            vstd::utf8::char_u32_cast(c, c as u32);
            vstd::utf8::char_u32_cast(d, d as u32);
            assert(d == c);
        } else {
            assert(t[0] == c);
            assert(t.drop_first() =~= tail);
        }
    }
}

/// Whether `t` begins with `prefix`.
pub open spec fn begins_with(t: Seq<char>, prefix: Seq<char>) -> bool {
    t.len() >= prefix.len() && t.take(prefix.len() as int) == prefix
}

/// Reads one object `{"location":<string>,"content":<string>}` at the start
/// of `t`: its two texts and what follows it.
pub open spec fn read_object(t: Seq<char>) -> Option<((Seq<char>, Seq<char>), Seq<char>)> {
    let k1 = "{\"location\":"@;
    let k2 = ",\"content\":"@;
    if begins_with(t, k1) {
        match read_json_string(t.skip(k1.len() as int)) {
            Some((location, r1)) => if begins_with(r1, k2) {
                match read_json_string(r1.skip(k2.len() as int)) {
                    Some((content, r2)) => if r2.len() > 0 && r2[0] == '}' {
                        Some(((location, content), r2.drop_first()))
                    } else {
                        None
                    },
                    None => None,
                }
            } else {
                None
            },
            None => None,
        }
    } else {
        None
    }
}

/// Reads one or more objects separated by commas at the start of `t`: their
/// pairs, in order, and what follows the last one.
pub open spec fn read_objects(t: Seq<char>) -> Option<(Seq<(Seq<char>, Seq<char>)>, Seq<char>)>
    decreases t.len(),
{
    match read_object(t) {
        Some((pair, r)) => if r.len() > 0 && r[0] == ',' && r.len() <= t.len() {
            match read_objects(r.drop_first()) {
                Some((pairs, r2)) => Some((seq![pair] + pairs, r2)),
                None => None,
            }
        } else {
            Some((seq![pair], r))
        },
        None => None,
    }
}

/// Reads a whole document: a JSON array of such objects, with nothing after
/// it, as its (location, content) pairs in order.
pub open spec fn read_json_export(d: Seq<char>) -> Option<Seq<(Seq<char>, Seq<char>)>> {
    if d == "[]"@ {
        Some(Seq::empty())
    } else if d.len() > 0 && d[0] == '[' {
        match read_objects(d.drop_first()) {
            Some((pairs, r)) => if r == seq![']'] {
                Some(pairs)
            } else {
                None
            },
            None => None,
        }
    } else {
        None
    }
}

/// The pairs of a list, each text written as a JSON string literal.
pub open spec fn quoted_pairs(entries: Seq<(Seq<char>, Seq<char>)>) -> Seq<(Seq<char>, Seq<char>)> {
    entries.map_values(
        |e: (Seq<char>, Seq<char>)| (json_string_literal(e.0), json_string_literal(e.1)),
    )
}

proof fn lemma_read_string_literal(s: Seq<char>, rest: Seq<char>)
    ensures
        read_json_string(json_string_literal(s) + rest) == Some((s, rest)),
{
    let t = json_string_literal(s) + rest;
    assert(t.drop_first() =~= json_escaped(s) + seq!['"'] + rest);
    lemma_read_escaped(s, rest);
}

proof fn lemma_read_object(location: Seq<char>, content: Seq<char>, rest: Seq<char>)
    ensures
        read_object(
            json_object(json_string_literal(location), json_string_literal(content)) + rest,
        ) == Some(((location, content), rest)),
{
    let k1 = "{\"location\":"@;
    let k2 = ",\"content\":"@;
    reveal_strlit("{\"location\":");
    reveal_strlit(",\"content\":");
    reveal_strlit("}");
    let ql = json_string_literal(location);
    let qc = json_string_literal(content);
    let t = json_object(ql, qc) + rest;
    let r1 = k2 + qc + "}"@ + rest;
    let r2 = "}"@ + rest;
    assert(t =~= k1 + (ql + r1));
    assert(t.take(k1.len() as int) =~= k1);
    assert(t.skip(k1.len() as int) =~= ql + r1);
    lemma_read_string_literal(location, r1);
    assert(r1 =~= k2 + (qc + r2));
    assert(r1.take(k2.len() as int) =~= k2);
    assert(r1.skip(k2.len() as int) =~= qc + r2);
    lemma_read_string_literal(content, r2);
    assert(r2.drop_first() =~= rest);
}

proof fn lemma_elements_front(q: Seq<(Seq<char>, Seq<char>)>)
    requires
        q.len() >= 2,
    ensures
        json_elements(q) == json_object(q[0].0, q[0].1) + ","@ + json_elements(q.drop_first()),
    decreases q.len(),
{
    let qd = q.drop_first();
    if q.len() == 2 {
        assert(q.drop_last().drop_last().len() == 0);
        assert(qd.drop_last().len() == 0);
        assert(json_elements(q.drop_last()) == json_object(q[0].0, q[0].1));
        assert(json_elements(qd) == json_object(q[1].0, q[1].1));
    } else {
        lemma_elements_front(q.drop_last());
        assert(q.drop_last().drop_first() =~= qd.drop_last());
        assert(json_elements(q) =~= json_object(q[0].0, q[0].1) + ","@ + json_elements(qd));
    }
}

proof fn lemma_read_objects(entries: Seq<(Seq<char>, Seq<char>)>, rest: Seq<char>)
    requires
        entries.len() >= 1,
        rest.len() > 0,
        rest[0] != ',',
    ensures
        read_objects(json_elements(quoted_pairs(entries)) + rest) == Some((entries, rest)),
    decreases entries.len(),
{
    let q = quoted_pairs(entries);
    let t = json_elements(q) + rest;
    reveal_strlit(",");
    if entries.len() == 1 {
        assert(q.drop_last().len() == 0);
        assert(json_elements(q) == json_object(q[0].0, q[0].1));
        lemma_read_object(entries[0].0, entries[0].1, rest);
        assert(seq![entries[0]] =~= entries);
    } else {
        let qd = q.drop_first();
        lemma_elements_front(q);
        assert(qd =~= quoted_pairs(entries.drop_first()));
        let r = ","@ + json_elements(qd) + rest;
        assert(t =~= json_object(q[0].0, q[0].1) + r);
        lemma_read_object(entries[0].0, entries[0].1, r);
        assert(r.drop_first() =~= json_elements(qd) + rest);
        lemma_read_objects(entries.drop_first(), rest);
        assert(seq![entries[0]] + entries.drop_first() =~= entries);
    }
}

proof fn lemma_lone_bracket_reads_nothing()
    ensures
        read_objects(seq![']']) is None,
{
    reveal_strlit("{\"location\":");
    assert(!begins_with(seq![']'], "{\"location\":"@));
}

/// Reading an exported document back gives exactly the exported pairs.
pub(crate) proof fn lemma_read_back(entries: Seq<(Seq<char>, Seq<char>)>)
    ensures
        read_json_export(json_export(entries)) == Some(entries),
{
    let q = quoted_pairs(entries);
    let d = json_export(entries);
    reveal_strlit("[");
    reveal_strlit("]");
    if entries.len() == 0 {
        reveal_strlit("[]");
        assert(json_elements(q) =~= Seq::<char>::empty());
        assert(d =~= "[]"@);
        assert(entries =~= Seq::empty());
    } else {
        let rest = "]"@;
        assert(rest =~= seq![']']);
        lemma_read_objects(entries, rest);
        assert(d =~= seq!['['] + (json_elements(q) + rest));
        assert(d.drop_first() =~= json_elements(q) + rest);
        assert(d != "[]"@) by {
            if d == "[]"@ {
                reveal_strlit("[]");
                assert(d.drop_first() =~= seq![']']);
                lemma_lone_bracket_reads_nothing();
            }
        }
    }
}

} // verus!
