//! The server dispatcher's decisions: what each framed request is answered
//! with, the operator's commands, and the table of live connections.
use vstd::prelude::*;
use crate::common::{input_action_of, parse_input_action, InputAction};
use crate::requests::{
    clone_strings, decode, param_index, parse_request, pv_view, Endpoint, ParamView, QueryPVMap,
    RequestView, TERMINATOR_CHAR,
};
use crate::text::{chars_of, push_char_str, string_of, string_views, take_until, take_until_chars};

verus! {

/// The payload sent back for a request that cannot be parsed or that the
/// query layer does not answer.
pub const NO_RESPONSE_PAYLOAD: &'static str = "Failed to parse OR no response required";

/// A call into the query layer.
#[derive(Debug)]
pub enum QueryCall {
    /// All players, optionally only those whose name contains the filter.
    AllPlayers { name: Option<String> },
    /// Players, optionally only the one with this id, optionally with these
    /// statistics columns.
    Player { player_id: Option<String>, statistics: Option<Vec<String>> },
}

/// What the server does with one framed request.
#[derive(Debug)]
pub enum Dispatch {
    /// Send this framed response as it is.
    Reply(String),
    /// Ask the query layer, then frame its answer.
    Query(QueryCall),
}

/// The text of an optional string.
pub open spec fn opt_text(o: Option<String>) -> Option<Seq<char>> {
    match o {
        Some(s) => Some(s@),
        None => None,
    }
}

/// The texts of an optional list of strings.
pub open spec fn opt_texts(o: Option<Vec<String>>) -> Option<Seq<Seq<char>>> {
    match o {
        Some(v) => Some(string_views(v@)),
        None => None,
    }
}

/// The values given for `name`, if the parameter is present.
pub open spec fn param_values(m: Seq<ParamView>, name: Seq<char>) -> Option<Seq<Seq<char>>> {
    let k = param_index(m, name);
    if k < 0 {
        None
    } else {
        Some(m[k].1)
    }
}

/// `+` read as a space.
pub open spec fn plus_to_space(s: Seq<char>) -> Seq<char> {
    s.map_values(|c: char| if c == '+' { ' ' } else { c })
}

/// The name filter: the single value of `name`, with `+` as space; none
/// where the parameter is absent or has several values.
pub open spec fn name_filter(m: Seq<ParamView>) -> Option<Seq<char>> {
    match param_values(m, "name"@) {
        Some(vs) => if vs.len() == 1 {
            Some(plus_to_space(vs[0]))
        } else {
            None
        },
        None => None,
    }
}

/// The player id: the first value of `player_id`, if present with a value.
pub open spec fn player_id_filter(m: Seq<ParamView>) -> Option<Seq<char>> {
    match param_values(m, "player_id"@) {
        Some(vs) => if vs.len() > 0 {
            Some(vs[0])
        } else {
            None
        },
        None => None,
    }
}

/// Whether a call matches a request with URI `get-all-players` or `get-player`.
pub open spec fn routes_to(r: RequestView, call: QueryCall) -> bool {
    if r.0 == "get-all-players"@ {
        call matches QueryCall::AllPlayers { name } && opt_text(name) == name_filter(r.1)
    } else {
        call matches QueryCall::Player { player_id, statistics } && opt_text(player_id)
            == player_id_filter(r.1) && opt_texts(statistics) == param_values(r.1, "statistics"@)
    }
}

/// Whether the query layer answers this URI.
pub open spec fn answered(uri: Seq<char>) -> bool {
    uri == "get-all-players"@ || uri == "get-player"@
}

/// The position of parameter `name` in `m`.
fn find_param(m: &QueryPVMap, name: &str) -> (r: Option<usize>)
    ensures
        match r {
            Some(k) => k < m@.len() && k as int == param_index(
                pv_view(m@),
                name@,
            ),
            None => param_index(
                pv_view(m@),
                name@,
            ) < 0,
        },
{
    let ghost pv = pv_view(m@);
    let key = name.to_owned();
    let mut i: usize = 0;
    while i < m.len()
        invariant
            pv == pv_view(m@),
            key@ == name@,
            i <= m@.len(),
            forall|j: int| 0 <= j < i ==> pv[j].0 != name@,
        decreases m.len() - i,
    {
        if m[i].0 == key {
            proof {
                lemma_first_param(pv, name@, i as int);
            }
            return Some(i);
        }
        i = i + 1;
    }
    proof {
        lemma_first_param(pv, name@, pv.len() as int);
    }
    None
}

proof fn lemma_first_param(m: Seq<ParamView>, name: Seq<char>, k: int)
    requires
        0 <= k <= m.len(),
        k < m.len() ==> m[k].0 == name,
        forall|j: int| 0 <= j < k ==> m[j].0 != name,
    ensures
        param_index(m, name) == (if k < m.len() {
            k
        } else {
            -1
        }),
    decreases m.len(),
{
    if m.len() > 0 && k > 0 {
        lemma_first_param(m.drop_first(), name, k - 1);
    }
}

/// `s` with every `+` read as a space.
fn plus_as_space(s: &String) -> (r: String)
    ensures
        r@ == plus_to_space(s@),
{
    let cs = chars_of(s.as_str());
    let mut out: Vec<char> = Vec::new();
    let mut i: usize = 0;
    while i < cs.len()
        invariant
            cs@ == s@,
            i <= cs@.len(),
            out@ == plus_to_space(s@).subrange(0, i as int),
        decreases cs.len() - i,
    {
        let c = cs[i];
        out.push(if c == '+' { ' ' } else { c });
        i = i + 1;
        assert(out@ =~= plus_to_space(s@).subrange(0, i as int));
    }
    assert(plus_to_space(s@).subrange(0, i as int) =~= plus_to_space(s@));
    string_of(out.as_slice())
}

/// The query-layer call for a decoded request: `get-all-players` passes
/// its optional name filter, `get-player` its optional player id and
/// statistics columns; any other URI is not answered.
pub fn route_request(request: &Endpoint) -> (r: Option<QueryCall>)
    ensures
        match r {
            Some(call) => answered(request@.0) && routes_to(request@, call),
            None => !answered(request@.0),
        },
{
    let m = &request.query_pv_map;
    if request.uri == "get-all-players".to_owned() {
        let name = match find_param(m, "name") {
            Some(k) => if m[k].1.len() == 1 {
                Some(plus_as_space(&m[k].1[0]))
            } else {
                None
            },
            None => None,
        };
        Some(QueryCall::AllPlayers { name })
    } else if request.uri == "get-player".to_owned() {
        let player_id = match find_param(m, "player_id") {
            Some(k) => if m[k].1.len() > 0 {
                Some(m[k].1[0].clone())
            } else {
                None
            },
            None => None,
        };
        let statistics = match find_param(m, "statistics") {
            Some(k) => Some(clone_strings(&m[k].1)),
            None => None,
        };
        proof {
            reveal_strlit("get-player");
            reveal_strlit("get-all-players");
            assert("get-player"@.len() != "get-all-players"@.len());
        }
        Some(QueryCall::Player { player_id, statistics })
    } else {
        None
    }
}

/// A payload followed by the terminator.
pub fn frame_response(payload: &str) -> (r: String)
    ensures
        r@ == payload@.push(TERMINATOR_CHAR),
{
    let mut r = payload.to_owned();
    push_char_str(&mut r, TERMINATOR_CHAR);
    r
}

/// Decides the answer to one framed request: a request that does not
/// decode, or whose URI the query layer does not answer, gets the fixed
/// payload and the connection stays open; any other goes to the query layer.
pub fn dispatch_request(request: &str) -> (r: Dispatch)
    ensures
        match decode(request@) {
            Ok(req) => if answered(req.0) {
                r matches Dispatch::Query(call) && routes_to(req, call)
            } else {
                r matches Dispatch::Reply(s) && s@ == NO_RESPONSE_PAYLOAD@.push(TERMINATOR_CHAR)
            },
            Err(_) => r matches Dispatch::Reply(s) && s@ == NO_RESPONSE_PAYLOAD@.push(
                TERMINATOR_CHAR,
            ),
        },
{
    match parse_request(request) {
        Ok(ep) => match route_request(&ep) {
            Some(call) => Dispatch::Query(call),
            None => Dispatch::Reply(frame_response(NO_RESPONSE_PAYLOAD)),
        },
        Err(_) => Dispatch::Reply(frame_response(NO_RESPONSE_PAYLOAD)),
    }
}

/// What `str::to_lowercase` gives for a text.
pub uninterp spec fn lower_of(s: Seq<char>) -> Seq<char>;

/// Relies on `str::to_lowercase`: the result depends on the characters alone.
#[verifier::external_body]
fn lowercase(s: &str) -> (r: String)
    ensures
        r@ == lower_of(s@),
{
    s.to_lowercase()
}

/// The operator command named by the first space-separated word of a line,
/// read without regard to case.
pub fn parse_server_input(buf: &str) -> (r: Option<InputAction>)
    ensures
        r == input_action_of(seq![lower_of(take_until(buf@, ' '))]),
{
    let chars = chars_of(buf);
    let first = string_of(take_until_chars(chars.as_slice(), ' ').as_slice());
    let mut words: Vec<String> = Vec::new();
    words.push(lowercase(first.as_str()));
    assert(string_views(words@) =~= seq![lower_of(take_until(buf@, ' '))]);
    parse_input_action(words.as_slice())
}

/// The names held by the slots, in order.
pub open spec fn slot_view(slots: Seq<Option<String>>) -> Seq<Option<Seq<char>>> {
    slots.map_values(|o: Option<String>| opt_text(o))
}

/// The names of the live connections, in handle order.
pub open spec fn live(slots: Seq<Option<Seq<char>>>) -> Seq<Seq<char>>
    decreases slots.len(),
{
    if slots.len() == 0 {
        Seq::empty()
    } else {
        match slots.last() {
            Some(n) => live(slots.drop_last()).push(n),
            None => live(slots.drop_last()),
        }
    }
}

/// The handles of the live connections, in order.
pub open spec fn live_handles_of(slots: Seq<Option<Seq<char>>>) -> Seq<int>
    decreases slots.len(),
{
    if slots.len() == 0 {
        Seq::empty()
    } else {
        match slots.last() {
            Some(_) => live_handles_of(slots.drop_last()).push(slots.len() - 1),
            None => live_handles_of(slots.drop_last()),
        }
    }
}

/// Live connections by stable handle: a handle is a slot index, and a
/// connection that goes leaves its slot empty rather than shifting others.
#[derive(Debug)]
pub struct ConnectionRegistry {
    pub slots: Vec<Option<String>>,
}

impl View for ConnectionRegistry {
    type V = Seq<Option<Seq<char>>>;

    open spec fn view(&self) -> Seq<Option<Seq<char>>> {
        slot_view(self.slots@)
    }
}

impl ConnectionRegistry {
    /// No connections.
    pub fn new() -> (r: ConnectionRegistry)
        ensures
            r@ == Seq::<Option<Seq<char>>>::empty(),
    {
        let r = ConnectionRegistry { slots: Vec::new() };
        assert(r@ =~= Seq::<Option<Seq<char>>>::empty());
        r
    }

    /// Records a connection by its peer address; its handle is a new slot.
    pub fn register(&mut self, name: String) -> (r: usize)
        ensures
            r == old(self)@.len(),
            final(self)@ == old(self)@.push(Some(name@)),
    {
        let r = self.slots.len();
        self.slots.push(Some(name));
        assert(self@ =~= old(self)@.push(Some(name@)));
        r
    }

    /// Forgets the connection with this handle; `false`, with nothing
    /// changed, where the handle names no live connection.
    pub fn deregister(&mut self, handle: usize) -> (r: bool)
        ensures
            r == (handle < old(self)@.len() && old(self)@[handle as int] is Some),
            r ==> final(self)@ == old(self)@.update(handle as int, None),
            !r ==> final(self)@ == old(self)@,
    {
        if handle >= self.slots.len() {
            return false;
        }
        if self.slots[handle].is_none() {
            return false;
        }
        let _ = self.slots.remove(handle);
        self.slots.insert(handle, None);
        assert(self@ =~= old(self)@.update(handle as int, None));
        true
    }

    /// The peer addresses of the live connections, in handle order.
    pub fn live_names(&self) -> (r: Vec<String>)
        ensures
            string_views(r@) == live(self@),
    {
        let mut r: Vec<String> = Vec::new();
        let mut i: usize = 0;
        assert(self@.subrange(0, 0) =~= Seq::<Option<Seq<char>>>::empty());
        assert(string_views(r@) =~= Seq::<Seq<char>>::empty());
        while i < self.slots.len()
            invariant
                i <= self@.len(),
                self@.len() == self.slots@.len(),
                string_views(r@) == live(self@.subrange(0, i as int)),
            decreases self.slots.len() - i,
        {
            let ghost before = string_views(r@);
            assert(self@.subrange(0, i + 1).drop_last() =~= self@.subrange(0, i as int));
            assert(self@.subrange(0, i + 1).last() == opt_text(self.slots@[i as int]));
            match &self.slots[i] {
                Some(n) => {
                    r.push(n.clone());
                    assert(string_views(r@) =~= before.push(n@));
                },
                None => {},
            }
            i = i + 1;
        }
        assert(self@.subrange(0, self@.len() as int) =~= self@);
        r
    }

    /// The handles of the live connections, in order.
    pub fn live_handles(&self) -> (r: Vec<usize>)
        ensures
            r@.map_values(|h: usize| h as int) == live_handles_of(self@),
    {
        let mut r: Vec<usize> = Vec::new();
        let mut i: usize = 0;
        assert(self@.subrange(0, 0) =~= Seq::<Option<Seq<char>>>::empty());
        assert(r@.map_values(|h: usize| h as int) =~= Seq::<int>::empty());
        while i < self.slots.len()
            invariant
                i <= self@.len(),
                self@.len() == self.slots@.len(),
                r@.map_values(|h: usize| h as int) == live_handles_of(self@.subrange(0, i as int)),
            decreases self.slots.len() - i,
        {
            let ghost before = r@.map_values(|h: usize| h as int);
            assert(self@.subrange(0, i + 1).drop_last() =~= self@.subrange(0, i as int));
            assert(self@.subrange(0, i + 1).last() == opt_text(self.slots@[i as int]));
            if self.slots[i].is_some() {
                r.push(i);
                assert(r@.map_values(|h: usize| h as int) =~= before.push(i as int));
            }
            i = i + 1;
        }
        assert(self@.subrange(0, self@.len() as int) =~= self@);
        r
    }
}

} // verus!
