//! What the relay of requests decides before it sends: which method to use,
//! and which header lines to send in which order.

use crate::records::owner::{KeyValue, KeyValueView};
use crate::rows::{lemma_map_step, lemma_pushed, select_rows};
use crate::text::{chars_of, fold_char, folded, text_eq};
use vstd::prelude::*;
use vstd::string::*;

verus! {

/// The method of a request.
#[derive(Debug, Clone, Copy, PartialEq, Eq, Structural)]
pub enum RelayMethod {
    Get,
    Post,
    Put,
    Delete,
}

/// The method that the word `method` asks for: `POST`, `PUT` and `DELETE`
/// ask for themselves, every other word for `GET`.
pub open spec fn method_of(method: Seq<char>) -> RelayMethod {
    if method == "POST"@ {
        RelayMethod::Post
    } else if method == "PUT"@ {
        RelayMethod::Put
    } else if method == "DELETE"@ {
        RelayMethod::Delete
    } else {
        RelayMethod::Get
    }
}

/// The method that the word `method` asks for.
pub fn relay_method(method: &str) -> (r: RelayMethod)
    ensures
        r == method_of(method@),
{
    if text_eq(method, "POST") {
        RelayMethod::Post
    } else if text_eq(method, "PUT") {
        RelayMethod::Put
    } else if text_eq(method, "DELETE") {
        RelayMethod::Delete
    } else {
        RelayMethod::Get
    }
}

/// Whether `a` and `b` are the same but for the case of the letters `A` to
/// `Z`.
pub open spec fn same_but_case(a: Seq<char>, b: Seq<char>) -> bool {
    a.len() == b.len() && forall|i: int| 0 <= i < a.len() ==> folded(#[trigger] a[i]) == folded(b[i])
}

/// Whether `a` and `b` are the same but for the case of the letters `A` to
/// `Z`.
pub fn text_same_but_case(a: &str, b: &str) -> (r: bool)
    ensures
        r == same_but_case(a@, b@),
{
    let x = chars_of(a);
    let y = chars_of(b);
    if x.len() != y.len() {
        return false;
    }
    let mut i: usize = 0;
    while i < x.len()
        invariant
            x@ == a@,
            y@ == b@,
            x.len() == y.len(),
            i <= x.len(),
            forall|k: int| 0 <= k < i ==> folded(#[trigger] a@[k]) == folded(b@[k]),
        decreases x.len() - i,
    {
        if fold_char(x[i]) != fold_char(y[i]) {
            proof {
                assert(folded(a@[i as int]) != folded(b@[i as int]));
            }
            return false;
        }
        i += 1;
    }
    true
}

/// The test for being the cookie header.
pub open spec fn is_cookie() -> spec_fn(KeyValueView) -> bool {
    |kv: KeyValueView| same_but_case(kv.key, "cookie"@)
}

/// The test for being any header but the cookie header.
pub open spec fn is_plain() -> spec_fn(KeyValueView) -> bool {
    |kv: KeyValueView| !same_but_case(kv.key, "cookie"@)
}

/// A header as it is sent: its key, a colon and a blank, and its value.
pub open spec fn header_line() -> spec_fn(KeyValueView) -> Seq<char> {
    |kv: KeyValueView| kv.key + ": "@ + kv.value
}

/// The header lines of a request: every header but the cookie header in
/// the order given, and then, where cookies are given, one cookie header
/// with the cookies given last.
pub open spec fn request_lines(headers: Seq<KeyValueView>) -> Seq<Seq<char>> {
    let plain = headers.filter(is_plain()).map_values(header_line());
    let cookies = headers.filter(is_cookie());
    if cookies.len() == 0 {
        plain
    } else {
        plain.push("Cookie: "@ + cookies.last().value)
    }
}

/// The header lines to send for the headers `headers`: every header but
/// the cookie header in the order given, and then, where cookies are given,
/// one cookie header with the cookies given last.
pub fn request_header_lines(headers: &Vec<KeyValue>) -> (r: Vec<String>)
    ensures
        r.deep_view() == request_lines(headers.deep_view()),
{
    let plain = select_rows(
        headers,
        |kv: &KeyValue| -> (b: bool)
            ensures b == !same_but_case(kv@.key, "cookie"@)
        {
            !text_same_but_case(kv.key.as_str(), "cookie")
        },
        Ghost(is_plain()),
    );
    let cookies = select_rows(
        headers,
        |kv: &KeyValue| -> (b: bool)
            ensures b == same_but_case(kv@.key, "cookie"@)
        {
            text_same_but_case(kv.key.as_str(), "cookie")
        },
        Ghost(is_cookie()),
    );
    let mut out: Vec<String> = Vec::new();
    let mut i: usize = 0;
    while i < plain.len()
        invariant
            i <= plain.len(),
            out.deep_view() =~= plain.deep_view().take(i as int).map_values(header_line()),
        decreases plain.len() - i,
    {
        let mut line = plain[i].key.clone();
        line.append(": ");
        line.append(plain[i].value.as_str());
        let ghost prior = out;
        out.push(line);
        proof {
            lemma_pushed(prior, out, line);
            lemma_map_step(plain.deep_view(), header_line(), i as int);
        }
        i += 1;
    }
    proof {
        assert(plain.deep_view().take(i as int) =~= plain.deep_view());
    }
    if cookies.len() > 0 {
        let mut line = "Cookie: ".to_owned();
        line.append(cookies[cookies.len() - 1].value.as_str());
        let ghost prior = out;
        out.push(line);
        proof {
            lemma_pushed(prior, out, line);
        }
    }
    out
}

} // verus!
