//! Member, role and channel references written in messages.
use vstd::prelude::*;
use crate::text::{
    all_ascii_digits, all_digits, chars_of, ends_with, is_digit, is_ws, slice, starts_with,
    string_of, strip_leading, strip_leading_chars, trim, trim_chars,
};

verus! {

/// The text of an optional `String`.
pub open spec fn opt_view(o: Option<String>) -> Option<Seq<char>> {
    match o {
        Some(s) => Some(s@),
        None => None,
    }
}

/// The id inside `<@…>`: `s` without its first two and its last character.
pub open spec fn mention_body(s: Seq<char>) -> Seq<char> {
    s.subrange(2, s.len() - 1)
}

/// The id that `input` names: after trimming, either a mention `<@id>`, `<@!id>`
/// or `<@&id>` (any number of `!` and then of `&` may follow the `@`), or a bare
/// id; an id is a non-empty run of ASCII digits.
pub open spec fn extract_id_spec(input: Seq<char>) -> Option<Seq<char>> {
    let s = trim(input);
    if starts_with(s, seq!['<', '@']) && ends_with(s, seq!['>']) {
        let id = strip_leading(strip_leading(mention_body(s), seq!['!']), seq!['&']);
        if all_digits(id) && id.len() > 0 {
            Some(id)
        } else {
            None
        }
    } else if all_digits(s) && s.len() > 0 {
        Some(s)
    } else {
        None
    }
}

/// The mention `<@id>` of a user.
pub open spec fn user_mention(id: Seq<char>) -> Seq<char> {
    seq!['<', '@'] + id + seq!['>']
}

/// The mention `<#id>` of a channel.
pub open spec fn channel_mention(id: Seq<char>) -> Seq<char> {
    seq!['<', '#'] + id + seq!['>']
}

proof fn lemma_starts_ends(s: Seq<char>)
    ensures
        starts_with(s, seq!['<', '@']) <==> (s.len() >= 2 && s[0] == '<' && s[1] == '@'),
        ends_with(s, seq!['>']) <==> (s.len() >= 1 && s[s.len() - 1] == '>'),
{
    if s.len() >= 2 && s[0] == '<' && s[1] == '@' {
        assert(s.take(2) =~= seq!['<', '@']);
    }
    if starts_with(s, seq!['<', '@']) {
        assert(s.take(2)[0] == '<' && s.take(2)[1] == '@');
    }
    if s.len() >= 1 && s[s.len() - 1] == '>' {
        assert(s.skip(s.len() - 1) =~= seq!['>']);
    }
    if ends_with(s, seq!['>']) {
        assert(s.skip(s.len() - 1)[0] == '>');
    }
}

/// The id named by a mention or a bare id in `v`, as characters.
pub fn extract_id_chars(v: &Vec<char>) -> (r: Option<Vec<char>>)
    ensures
        r matches Some(x) ==> extract_id_spec(v@) == Some(x@),
        r is None ==> extract_id_spec(v@) is None,
{
    let s = trim_chars(v);
    proof {
        lemma_starts_ends(s@);
    }
    let n = s.len();
    if n >= 2 && s[0] == '<' && s[1] == '@' && s[n - 1] == '>' {
        let inner = slice(&s, 2, n - 1);
        let bang = vec!['!'];
        let amp = vec!['&'];
        assert(bang@ =~= seq!['!']);
        assert(amp@ =~= seq!['&']);
        let a = strip_leading_chars(&inner, &bang);
        let id = strip_leading_chars(&a, &amp);
        if all_ascii_digits(&id) && id.len() > 0 {
            return Some(id);
        }
        None
    } else if all_ascii_digits(&s) && s.len() > 0 {
        Some(s)
    } else {
        None
    }
}

/// The id named by `input`: a mention `<@id>`, `<@!id>` or `<@&id>`, or a bare
/// numeric id, surrounding white space ignored.
pub fn extract_id(input: &str) -> (r: Option<String>)
    ensures
        opt_view(r) == extract_id_spec(input@),
{
    let v = chars_of(input);
    match extract_id_chars(&v) {
        Some(x) => Some(string_of(&x)),
        None => None,
    }
}

proof fn lemma_digits_trim(id: Seq<char>)
    requires
        all_digits(id),
    ensures
        trim(id) == id,
{
    if id.len() > 0 {
        assert(!is_ws(id[0]));
        assert(!is_ws(id.last()));
        assert(is_digit(id[id.len() - 1]));
    }
}

proof fn lemma_no_leading(id: Seq<char>, c: char)
    requires
        all_digits(id),
        !is_digit(c),
    ensures
        strip_leading(id, seq![c]) == id,
{
    if starts_with(id, seq![c]) {
        assert(id.take(1)[0] == c);
        assert(is_digit(id[0]));
    }
}

/// A non-empty run of digits names itself, and so does each of its mention
/// forms `<@id>`, `<@!id>` and `<@&id>`.
pub proof fn lemma_extract_id_of_mention(id: Seq<char>)
    requires
        all_digits(id),
        id.len() > 0,
    ensures
        extract_id_spec(id) == Some(id),
        extract_id_spec(user_mention(id)) == Some(id),
        extract_id_spec(seq!['<', '@', '!'] + id + seq!['>']) == Some(id),
        extract_id_spec(seq!['<', '@', '&'] + id + seq!['>']) == Some(id),
{
    lemma_digits_trim(id);
    assert(!starts_with(id, seq!['<', '@'])) by {
        lemma_starts_ends(id);
        assert(is_digit(id[0]));
    }
    lemma_no_leading(id, '!');
    lemma_no_leading(id, '&');
    let plain = user_mention(id);
    let bang = seq!['<', '@', '!'] + id + seq!['>'];
    let amp = seq!['<', '@', '&'] + id + seq!['>'];
    assert forall|m: Seq<char>| m == plain || m == bang || m == amp implies trim(m) == m by {
        assert(m[0] == '<');
        assert(m.last() == '>');
    }
    lemma_starts_ends(plain);
    lemma_starts_ends(bang);
    lemma_starts_ends(amp);
    assert(mention_body(plain) =~= id);
    let bb = mention_body(bang);
    assert(bb =~= seq!['!'] + id);
    assert(starts_with(bb, seq!['!'])) by {
        assert(bb.take(1) =~= seq!['!']);
    }
    assert(bb.skip(1) =~= id);
    assert(strip_leading(bb, seq!['!']) == strip_leading(id, seq!['!']));
    let ab = mention_body(amp);
    assert(ab =~= seq!['&'] + id);
    assert(!starts_with(ab, seq!['!'])) by {
        if starts_with(ab, seq!['!']) {
            assert(ab.take(1)[0] == '!');
        }
    }
    assert(starts_with(ab, seq!['&'])) by {
        assert(ab.take(1) =~= seq!['&']);
    }
    assert(ab.skip(1) =~= id);
    assert(strip_leading(ab, seq!['&']) == strip_leading(id, seq!['&']));
}

} // verus!
