//! Header fields: which names and values can be put on the wire, and which
//! values can be read as text.

use vstd::prelude::*;
use vstd::string::*;

verus! {

/// A header as it stands on the wire: a name and the bytes of a value.
pub type RawHeader = (String, Vec<u8>);

/// A header whose value is text.
pub type TextHeader = (String, String);

/// The names and value bytes of `v`.
pub open spec fn raw_headers(v: Seq<RawHeader>) -> Seq<(Seq<char>, Seq<u8>)> {
    v.map_values(|h: RawHeader| (h.0@, h.1@))
}

/// The names and value texts of `v`.
pub open spec fn text_headers(v: Seq<TextHeader>) -> Seq<(Seq<char>, Seq<char>)> {
    v.map_values(|h: TextHeader| (h.0@, h.1@))
}

/// Whether `b` is a visible ASCII character, a space or a tab.
pub open spec fn is_visible(b: u8) -> bool {
    32 <= b <= 126 || b == 9
}

/// The bytes `v` read as text, where all of them are visible ASCII.
pub open spec fn visible_text(v: Seq<u8>) -> Option<Seq<char>> {
    if forall|i: int| 0 <= i < v.len() ==> is_visible(#[trigger] v[i]) {
        Some(v.map_values(|b: u8| b as char))
    } else {
        None
    }
}

/// Whether `c` may stand in a header name.
pub open spec fn is_token(c: char) -> bool {
    ||| crate::text::is_digit(c)
    ||| crate::text::is_letter(c)
    ||| c == '!'
    ||| '#' <= c <= '\''
    ||| c == '*'
    ||| c == '+'
    ||| c == '-'
    ||| c == '.'
    ||| '^' <= c <= '`'
    ||| c == '|'
    ||| c == '~'
}

/// The longest header name, in characters.
pub const MAX_NAME_LEN: usize = 65535;

/// The header name that `name` stands for: a non-empty token, in lower case.
pub open spec fn wire_name(name: Seq<char>) -> Option<Seq<char>> {
    if 0 < name.len() <= MAX_NAME_LEN && forall|i: int|
        0 <= i < name.len() ==> is_token(#[trigger] name[i]) {
        Some(crate::text::lower(name))
    } else {
        None
    }
}

/// Whether `c` may stand in a header value.
pub open spec fn is_value_char(c: char) -> bool {
    (' ' <= c && c != '\u{7f}') || c == '\t'
}

/// The bytes of `value` as a header value, where no control character but
/// the tab stands in it.
pub open spec fn wire_value(value: Seq<char>) -> Option<Seq<u8>> {
    if forall|i: int| 0 <= i < value.len() ==> is_value_char(#[trigger] value[i]) {
        Some(vstd::utf8::encode_utf8(value))
    } else {
        None
    }
}

/// The bytes of an optional buffer.
pub open spec fn opt_bytes(v: Option<Vec<u8>>) -> Option<Seq<u8>> {
    match v {
        Some(b) => Some(b@),
        None => None,
    }
}

/// The bytes of a header value as text, where all of them are visible ASCII.
pub fn value_text(value: &[u8]) -> (r: Option<String>)
    ensures
        crate::text::opt_view(r) == visible_text(value@),
{
    let mut s: String = String::new();
    let mut i: usize = 0;
    let ghost f = |b: u8| b as char;
    while i < value.len()
        invariant
            i <= value@.len(),
            f == (|b: u8| b as char),
            forall|j: int| 0 <= j < i ==> is_visible(#[trigger] value@[j]),
            s@ == value@.take(i as int).map_values(f),
        decreases value@.len() - i,
    {
        let b: u8 = value[i];
        if !((32 <= b && b <= 126) || b == 9) {
            return None;
        }
        s.push(b as char);
        i = i + 1;
        proof {
            assert(value@.take(i as int).map_values(f) =~= value@.take(i - 1).map_values(f).push(
                b as char,
            ));
        }
    }
    proof {
        assert(value@.take(i as int) =~= value@);
    }
    Some(s)
}

/// `http::header::HeaderName::from_bytes` on the bytes of `name`. It succeeds
/// on a name of 1 to 65535 token characters and puts it in lower case; on
/// anything else it fails.
#[verifier::external_body]
pub(crate) fn header_name(name: &str) -> (r: Option<String>)
    ensures
        crate::text::opt_view(r) == wire_name(name@),
{
    ::http::header::HeaderName::from_bytes(name.as_bytes()).ok().map(|n| n.as_str().to_owned())
}

/// `http::header::HeaderValue::from_str`. It succeeds where no byte of
/// `value` is a control character other than the tab, and keeps the bytes as
/// they are; on anything else it fails.
#[verifier::external_body]
pub(crate) fn header_value(value: &str) -> (r: Option<Vec<u8>>)
    ensures
        opt_bytes(r) == wire_value(value@),
{
    ::http::header::HeaderValue::from_str(value).ok().map(|v| v.as_bytes().to_vec())
}

/// The bytes of a value are read as text exactly where each is a tab or lies
/// between the space and the tilde, and then one character for each byte.
pub proof fn law_visible_bytes_are_read_as_they_are(v: Seq<u8>)
    ensures
        visible_text(v) is Some <==> forall|i: int|
            0 <= i < v.len() ==> ' ' as int <= #[trigger] v[i] as int <= '~' as int || v[i] as int
                == '\t' as int,
        visible_text(v) matches Some(t) ==> t.len() == v.len() && forall|i: int|
            0 <= i < v.len() ==> #[trigger] t[i] as int == v[i] as int,
{
    if visible_text(v) is Some {
        assert forall|i: int| 0 <= i < v.len() implies ' ' as int <= #[trigger] v[i] as int
            <= '~' as int || v[i] as int == '\t' as int by {
            assert(is_visible(v[i]));
        }
        let t = visible_text(v)->0;
        assert forall|i: int| 0 <= i < v.len() implies #[trigger] t[i] as int == v[i] as int by {
            assert(is_visible(v[i]));
        }
    }
}

/// A name is valid exactly where it is not empty, not too long and made of
/// letters, digits and the marks of a token; it goes out in lower case, which
/// is valid again and stays as it is.
pub proof fn law_valid_names_are_tokens(name: Seq<char>)
    ensures
        wire_name(name) is Some <==> 1 <= name.len() <= 65535 && forall|i: int|
            0 <= i < name.len() ==> 'a' <= #[trigger] name[i] <= 'z' || 'A' <= name[i] <= 'Z'
                || '0' <= name[i] <= '9' || "!#$%&'*+-.^_`|~"@.contains(name[i]),
        wire_name(name) matches Some(n) ==> n == crate::text::lower(name) && wire_name(n) == Some(
            n,
        ),
{
    reveal_strlit("!#$%&'*+-.^_`|~");
    let marks = "!#$%&'*+-.^_`|~"@;
    if wire_name(name) is Some {
        assert forall|i: int| 0 <= i < name.len() implies 'a' <= #[trigger] name[i] <= 'z' || 'A'
            <= name[i] <= 'Z' || '0' <= name[i] <= '9' || marks.contains(name[i]) by {
            let c = name[i];
            assert(is_token(c));
            if !crate::text::is_digit(c) && !crate::text::is_letter(c) {
                let k: int = if c == '!' {
                    0
                } else if c <= '\'' {
                    c as int - '#' as int + 1
                } else if c == '*' {
                    6
                } else if c == '+' {
                    7
                } else if c == '-' {
                    8
                } else if c == '.' {
                    9
                } else if c <= '`' {
                    c as int - '^' as int + 10
                } else if c == '|' {
                    13
                } else {
                    14
                };
                assert(marks[k] == c);
            }
        }
        let n = wire_name(name)->0;
        crate::text::law_case_is_all_that_lower_forgets(name, n);
        assert forall|i: int| 0 <= i < n.len() implies is_token(#[trigger] n[i]) by {
            assert(n[i] == crate::text::lower_char(name[i]));
            assert(is_token(name[i]));
        }
    }
    if 1 <= name.len() <= 65535 && forall|i: int|
        0 <= i < name.len() ==> 'a' <= #[trigger] name[i] <= 'z' || 'A' <= name[i] <= 'Z' || '0'
            <= name[i] <= '9' || marks.contains(name[i]) {
        assert forall|i: int| 0 <= i < name.len() implies is_token(#[trigger] name[i]) by {
            if marks.contains(name[i]) {
                let k = choose|k: int| 0 <= k < marks.len() && marks[k] == name[i];
                assert(marks[k] == name[i]);
            }
        }
    }
}

/// A value is valid exactly where no control character but the tab stands in
/// it, and goes out with the bytes it has.
pub proof fn law_valid_values_are_kept(value: Seq<char>)
    ensures
        wire_value(value) is None <==> exists|i: int|
            0 <= i < value.len() && (#[trigger] value[i] as int == 0x7f || (value[i] as int) < 0x20)
                && value[i] != '\t',
        wire_value(value) is Some ==> wire_value(value)->0 == vstd::utf8::encode_utf8(value),
{
    if wire_value(value) is None {
        let i = choose|i: int| 0 <= i < value.len() && !is_value_char(#[trigger] value[i]);
        assert((value[i] as int == 0x7f || (value[i] as int) < 0x20) && value[i] != '\t');
    }
}

/// Header fields are seen one for one, each with its name and its value.
pub proof fn law_fields_are_seen_one_for_one(v: Seq<RawHeader>, w: Seq<TextHeader>, i: int)
    requires
        0 <= i < v.len(),
        0 <= i < w.len(),
    ensures
        raw_headers(v).len() == v.len(),
        raw_headers(v)[i] == (v[i].0@, v[i].1@),
        text_headers(w).len() == w.len(),
        text_headers(w)[i] == (w[i].0@, w[i].1@),
        opt_bytes(Some(v[i].1)) == Some(v[i].1@),
        opt_bytes(None) is None,
{
}

} // verus!
