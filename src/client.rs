//! The client driver's decisions: turning a typed line into a control
//! command or an encoded request.
use vstd::prelude::*;
use crate::common::{input_action_of, parse_input_action, InputAction};
use crate::requests::{
    clone_authoritative_endpoint_by_uri, decode_entries, encode, lemma_legal_names, legal_names,
    lookup, parse_entries, Endpoint, ParseError, RequestView,
};
use crate::text::{
    append_chars, chars_of, has_char, split, split_chars, string_of, string_views, views,
};

verus! {

/// A token that opens a quoted group: it holds `"` but does not end with one.
pub open spec fn opens_group(t: Seq<char>) -> bool {
    has_char(t, '"') && !(t.len() > 0 && t.last() == '"')
}

/// A token that closes a quoted group: it ends with `"`.
pub open spec fn closes_group(t: Seq<char>) -> bool {
    t.len() > 0 && t.last() == '"'
}

/// The tokens merged so far, and whether a quoted group is still open.
pub open spec fn merge_groups(ts: Seq<Seq<char>>) -> (Seq<Seq<char>>, bool)
    decreases ts.len(),
{
    if ts.len() == 0 {
        (Seq::empty(), false)
    } else {
        let (out, open) = merge_groups(ts.drop_last());
        let t = ts.last();
        if open {
            (out.update(out.len() - 1, out.last() + seq![' '] + t), !closes_group(t))
        } else {
            (out.push(t), opens_group(t))
        }
    }
}

/// The words of a typed line: split at spaces, with a quoted group (from a
/// token that opens it to the first that closes it, or to the end) kept as
/// one word.
pub open spec fn tokenize(line: Seq<char>) -> Seq<Seq<char>> {
    merge_groups(split(line, ' ')).0
}

/// What the client does with a typed line.
#[derive(Debug)]
pub enum ClientCommand {
    /// Act locally.
    Control(InputAction),
    /// Send this wire request.
    Send(String),
}

/// The request that the words name: the first is the endpoint, each other
/// is a `name=v1,v2,...` pair.
pub open spec fn request_of_words(words: Seq<Seq<char>>) -> Result<RequestView, ParseError> {
    if words.len() == 0 || lookup(words[0]) is None {
        Err(ParseError::UnknownEndpoint)
    } else {
        match decode_entries(words.drop_first(), legal_names(words[0])) {
            Ok(m) => Ok((words[0], m)),
            Err(e) => Err(e),
        }
    }
}

/// The words of `line`.
pub fn tokenize_line(line: &str) -> (r: Vec<String>)
    ensures
        string_views(r@) == tokenize(line@),
{
    let chars = chars_of(line);
    let pieces = split_chars(chars.as_slice(), ' ');
    let ghost ps = views(pieces@);
    let mut out: Vec<Vec<char>> = Vec::new();
    let mut open = false;
    let mut i: usize = 0;
    assert(ps.subrange(0, 0) =~= Seq::<Seq<char>>::empty());
    assert(views(out@) =~= Seq::<Seq<char>>::empty());
    while i < pieces.len()
        invariant
            ps == views(pieces@),
            i <= ps.len(),
            (views(out@), open) == merge_groups(ps.subrange(0, i as int)),
            open ==> out@.len() > 0,
        decreases pieces.len() - i,
    {
        let ghost before = views(out@);
        assert(ps.subrange(0, i + 1).drop_last() =~= ps.subrange(0, i as int));
        assert(ps.subrange(0, i + 1).last() == pieces@[i as int]@);
        let t = &pieces[i];
        let n = t.len();
        let closes = n > 0 && t[n - 1] == '"';
        if open {
            let ghost old_out = out@;
            let mut g = match out.pop() {
                Some(g) => g,
                None => Vec::new(),
            };
            assert(g@ == before.last());
            assert(views(out@) =~= before.drop_last());
            g.push(' ');
            append_chars(&mut g, t.as_slice());
            assert(g@ =~= before.last() + seq![' '] + t@);
            out.push(g);
            assert(views(out@) =~= before.update(before.len() - 1, before.last() + seq![' '] + t@));
            open = !closes;
        } else {
            let has_quote = match crate::text::find_char(t.as_slice(), '"') {
                Some(_) => true,
                None => false,
            };
            out.push(t.clone());
            assert(views(out@) =~= before.push(t@));
            open = has_quote && !closes;
        }
        i = i + 1;
    }
    assert(ps.subrange(0, ps.len() as int) =~= ps);
    let mut r: Vec<String> = Vec::new();
    let mut k: usize = 0;
    while k < out.len()
        invariant
            k <= out@.len(),
            r@.len() == k,
            forall|j: int| 0 <= j < k ==> (#[trigger] r@[j])@ == out@[j]@,
        decreases out.len() - k,
    {
        r.push(string_of(out[k].as_slice()));
        k = k + 1;
    }
    assert(string_views(r@) =~= views(out@));
    r
}

/// Reads a typed line: a control command when the first word names one;
/// otherwise the endpoint named by the first word with the `name=values`
/// pairs that follow, encoded as a wire request. Fails with
/// `UnknownEndpoint` for a word that names no endpoint, with
/// `MalformedParameter` for a pair without exactly one `=`, and with
/// `UnknownParameter` for a name that the endpoint does not take.
pub fn parse_input(buf: &str) -> (r: Result<ClientCommand, ParseError>)
    ensures
        match input_action_of(tokenize(buf@)) {
            Some(a) => r == Ok::<ClientCommand, ParseError>(ClientCommand::Control(a)),
            None => match request_of_words(tokenize(buf@)) {
                Ok(req) => r matches Ok(ClientCommand::Send(s)) && s@ == encode(req),
                Err(e) => r == Err::<ClientCommand, ParseError>(e),
            },
        },
{
    let words = tokenize_line(buf);
    let ghost ws = tokenize(buf@);
    if let Some(a) = parse_input_action(words.as_slice()) {
        return Ok(ClientCommand::Control(a));
    }
    if words.len() == 0 {
        return Err(ParseError::UnknownEndpoint);
    }
    assert(ws[0] == words@[0]@);
    let ep = match clone_authoritative_endpoint_by_uri(words[0].as_str()) {
        Some(e) => e,
        None => return Err(ParseError::UnknownEndpoint),
    };
    proof {
        lemma_legal_names(ws[0]);
    }
    let mut entries: Vec<Vec<char>> = Vec::new();
    let mut i: usize = 1;
    while i < words.len()
        invariant
            1 <= i <= words@.len(),
            entries@.len() == i - 1,
            forall|j: int| 0 <= j < i - 1 ==> (#[trigger] entries@[j])@ == words@[j + 1]@,
        decreases words.len() - i,
    {
        entries.push(chars_of(words[i].as_str()));
        i = i + 1;
    }
    assert(views(entries@) =~= ws.drop_first());
    let map = parse_entries(&ep, &entries)?;
    let request = Endpoint { uri: ep.uri, query_pv_map: map };
    Ok(ClientCommand::Send(request.get_request_string()))
}

} // verus!
