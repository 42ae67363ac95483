//! The client side: turning one input line — an operator and its operands,
//! separated by commas — into the request payload the server recognises.
//! Reading the input file and talking to the server stay with the caller.

use vstd::prelude::*;

verus! {

use vstd::string::{StrSliceExecFns, StringExecFns};
use crate::text::{
    dec_digits, lemma_split_commas_len, push_dec, split_commas, split_commas_exec, trim_spaces,
    trimmed,
};

/// Error returned when the client cannot be set up.
#[derive(Debug)]
pub struct ClientNewError {
    pub msg: String,
}

impl ClientNewError {
    pub fn new(msg: String) -> (e: ClientNewError)
        ensures
            e.msg@ == msg@,
    {
        ClientNewError { msg }
    }
}

/// Error returned when a calculation round cannot be carried out.
#[derive(Debug)]
pub struct ClientCalculateError {
    pub msg: String,
}

impl ClientCalculateError {
    pub fn new(msg: String) -> (e: ClientCalculateError)
        ensures
            e.msg@ == msg@,
    {
        ClientCalculateError { msg }
    }
}

/// `t` between double quotes, with no escaping.
pub open spec fn quoted(t: Seq<char>) -> Seq<char> {
    "\""@ + t + "\""@
}

/// The fields each quoted, separated by a comma and a space.
pub open spec fn quoted_list(toks: Seq<Seq<char>>) -> Seq<char>
    decreases toks.len(),
{
    if toks.len() == 0 {
        Seq::empty()
    } else if toks.len() == 1 {
        quoted(toks[0])
    } else {
        quoted_list(toks.drop_last()) + ", "@ + quoted(toks.last())
    }
}

/// The request body: the operator, then the quoted operand list in
/// brackets.
pub open spec fn request_content(op: Seq<char>, toks: Seq<Seq<char>>) -> Seq<char> {
    "operator="@ + op + "&operands=["@ + quoted_list(toks) + "]"@
}

/// The whole request for one input line: the line is trimmed and split at
/// commas; the first field is the operator and the rest are the operands;
/// the body follows a `POST` head whose `Content-Length` is the body's
/// length.
pub open spec fn rendered_request(line: Seq<char>) -> Seq<char> {
    let fields = split_commas(trimmed(line));
    let content = request_content(fields[0], fields.drop_first());
    "POST / HTTP/1.1\r\nContent-Type: application/x-www-form-urlencoded\r\nContent-Length: "@
        + dec_digits(content.len() as int) + "\r\n\r\n"@ + content
}

/// Build the request payload for one input line. Splitting always yields
/// at least the operator field, so every line renders.
pub fn parse_request(s: &str) -> (r: Result<String, &'static str>)
    ensures
        r is Ok,
        r matches Ok(t) ==> t@ == rendered_request(s@),
{
    let line = trim_spaces(s);
    proof {
        lemma_split_commas_len(line@);
    }
    let fields = split_commas_exec(line);
    let ghost sp = split_commas(trimmed(s@));
    let mut content = String::from_str("operator=");
    content.append(fields[0].as_str());
    content.append("&operands=[");
    proof {
        assert(quoted_list(sp.drop_first().take(0)) == Seq::<char>::empty());
        assert(content@ =~= "operator="@ + sp[0] + "&operands=["@
            + quoted_list(sp.drop_first().take(0)));
    }
    let n = fields.len();
    let mut j: usize = 1;
    while j < n
        invariant
            1 <= j <= n,
            n == fields@.len(),
            sp == split_commas(trimmed(s@)),
            n == sp.len(),
            forall|k: int| 0 <= k < n ==> (#[trigger] fields@[k])@ == sp[k],
            content@ == "operator="@ + sp[0] + "&operands=["@
                + quoted_list(sp.drop_first().take(j - 1)),
        decreases n - j,
    {
        if j > 1 {
            content.append(", ");
        }
        content.append("\"");
        content.append(fields[j].as_str());
        content.append("\"");
        proof {
            let rest = sp.drop_first();
            assert(rest[j - 1] == sp[j as int]);
            if j == 1 {
                assert(rest.take(1)[0] == rest[0]);
                assert(quoted_list(rest.take(1)) == quoted(rest[0]));
            } else {
                assert(rest.take(j as int).drop_last() =~= rest.take(j - 1));
                assert(rest.take(j as int).last() == rest[j - 1]);
            }
            assert(content@ =~= "operator="@ + sp[0] + "&operands=["@
                + quoted_list(rest.take(j as int)));
        }
        j = j + 1;
    }
    content.append("]");
    proof {
        assert(sp.drop_first().take(n - 1) =~= sp.drop_first());
        assert(content@ =~= request_content(sp[0], sp.drop_first()));
    }
    let clen = content.unicode_len();
    let mut req = String::from_str(
        "POST / HTTP/1.1\r\nContent-Type: application/x-www-form-urlencoded\r\nContent-Length: ",
    );
    push_dec(&mut req, clen);
    req.append("\r\n\r\n");
    req.append(content.as_str());
    proof {
        assert(req@ =~= rendered_request(s@));
    }
    Ok(req)
}

} // verus!
