use vstd::prelude::*;

use crate::json_reads::{json_has_at, json_object_has_key, json_text_at, read_has_at, read_object_has_key, read_text_at};
use crate::strings::str_equals;

verus! {

/// What reading a text at a path of a JSON response gave.
#[derive(Debug, Clone)]
pub enum FieldRead {
    /// Nothing is at the path.
    Absent,
    /// The path cannot be followed, or what is there is not a string.
    Failed,
    /// The string at the path.
    Text(String),
}

/// How one response fares against what a search looks for.
#[derive(PartialEq, Eq, Structural, Debug, Clone, Copy)]
pub enum ScanStep {
    Match,
    NoMatch,
    /// Reading the response fails, which ends the search.
    Malformed,
}

/// The result of looking through buffered responses in order.
#[derive(PartialEq, Eq, Structural, Debug, Clone, Copy)]
pub enum ResponseSearch {
    /// The position of the first response that matches.
    Found(usize),
    NotFound,
    /// A response before any match could not be read.
    Malformed,
}

/// The first position at or after `i` whose step is not `NoMatch`, or the
/// length when there is none.
pub open spec fn first_decisive(steps: Seq<ScanStep>, i: int) -> int
    decreases steps.len() - i,
{
    if i >= steps.len() || steps[i] != ScanStep::NoMatch {
        i
    } else {
        first_decisive(steps, i + 1)
    }
}

/// The outcome of a search over `steps`, in order.
pub open spec fn search_outcome(steps: Seq<ScanStep>) -> ResponseSearch {
    let k = first_decisive(steps, 0);
    if k >= steps.len() {
        ResponseSearch::NotFound
    } else if steps[k] == ScanStep::Match {
        ResponseSearch::Found(k as usize)
    } else {
        ResponseSearch::Malformed
    }
}

/// A response answers the request `message_id` when the text at
/// `payload.0.header.id` is that id.
pub open spec fn message_id_step(id: FieldRead, message_id: Seq<char>) -> ScanStep {
    match id {
        FieldRead::Absent => ScanStep::NoMatch,
        FieldRead::Failed => ScanStep::Malformed,
        FieldRead::Text(t) => if t@ == message_id {
            ScanStep::Match
        } else {
            ScanStep::NoMatch
        },
    }
}

pub open spec fn message_id_steps(ids: Seq<FieldRead>, message_id: Seq<char>) -> Seq<ScanStep> {
    Seq::new(ids.len(), |k: int| message_id_step(ids[k], message_id))
}

/// Decides `message_id_step` for one response.
fn message_id_step_of(id: &FieldRead, message_id: &str) -> (step: ScanStep)
    ensures
        step == message_id_step(*id, message_id@),
{
    match id {
        FieldRead::Absent => ScanStep::NoMatch,
        FieldRead::Failed => ScanStep::Malformed,
        FieldRead::Text(t) => if str_equals(t.as_str(), message_id) {
            ScanStep::Match
        } else {
            ScanStep::NoMatch
        },
    }
}

/// Finds the first buffered response that answers the request `message_id`,
/// given the text read at `payload.0.header.id` of each response in order.
pub fn find_response_by_message_id(ids: &Vec<FieldRead>, message_id: &str) -> (search: ResponseSearch)
    ensures
        search == search_outcome(message_id_steps(ids@, message_id@)),
{
    let ghost steps = message_id_steps(ids@, message_id@);
    let n = ids.len();
    let mut i: usize = 0;
    while i < n
        invariant
            n == ids.len(),
            i <= n,
            steps == message_id_steps(ids@, message_id@),
            first_decisive(steps, 0) == first_decisive(steps, i as int),
        decreases n - i,
    {
        let step = message_id_step_of(&ids[i], message_id);
        assert(steps[i as int] == step);
        match step {
            ScanStep::Match => {
                return ResponseSearch::Found(i);
            },
            ScanStep::Malformed => {
                return ResponseSearch::Malformed;
            },
            ScanStep::NoMatch => {
                i = i + 1;
            },
        }
    }
    ResponseSearch::NotFound
}

/// Runs a search over precomputed steps.
fn search_steps(steps: &Vec<ScanStep>) -> (search: ResponseSearch)
    ensures
        search == search_outcome(steps@),
{
    let n = steps.len();
    let mut i: usize = 0;
    while i < n
        invariant
            n == steps.len(),
            i <= n,
            first_decisive(steps@, 0) == first_decisive(steps@, i as int),
        decreases n - i,
    {
        match steps[i] {
            ScanStep::Match => {
                return ResponseSearch::Found(i);
            },
            ScanStep::Malformed => {
                return ResponseSearch::Malformed;
            },
            ScanStep::NoMatch => {
                i = i + 1;
            },
        }
    }
    ResponseSearch::NotFound
}

/// What the option-chain quote search reads of one response.
#[derive(Debug, Clone)]
pub struct QuoteResponseShape {
    /// The text at `payload.0.header.type`.
    pub header_type: FieldRead,
    /// Whether `payload.0.body.patches.0.op` exists; `None` when the check
    /// itself fails.
    pub has_patch_op: Option<bool>,
    /// The text at `payload.0.body.patches.0.op`.
    pub patch_op: FieldRead,
    /// The text at `payload.0.body.patches.0.path`.
    pub patch_path: FieldRead,
}

/// The initial snapshot is the response whose header type is `snapshot`;
/// a response without a readable header type ends the search.
pub open spec fn snapshot_step(shape: QuoteResponseShape) -> ScanStep {
    match shape.header_type {
        FieldRead::Text(t) => if t@ == "snapshot"@ {
            ScanStep::Match
        } else {
            ScanStep::NoMatch
        },
        _ => ScanStep::Malformed,
    }
}

/// The quotes come in the response whose first patch replaces the whole
/// document: operation `replace` at the empty path. Once a first patch
/// operation exists, its operation and path must both be readable.
pub open spec fn patch_step(shape: QuoteResponseShape) -> ScanStep {
    match shape.has_patch_op {
        None => ScanStep::Malformed,
        Some(false) => ScanStep::NoMatch,
        Some(true) => match (shape.patch_op, shape.patch_path) {
            (FieldRead::Text(op), FieldRead::Text(path)) => if op@ == "replace"@ && path@ == ""@ {
                ScanStep::Match
            } else {
                ScanStep::NoMatch
            },
            _ => ScanStep::Malformed,
        },
    }
}

pub open spec fn snapshot_steps(shapes: Seq<QuoteResponseShape>) -> Seq<ScanStep> {
    Seq::new(shapes.len(), |k: int| snapshot_step(shapes[k]))
}

pub open spec fn patch_steps(shapes: Seq<QuoteResponseShape>) -> Seq<ScanStep> {
    Seq::new(shapes.len(), |k: int| patch_step(shapes[k]))
}

/// Which response carries the option-chain quotes.
#[derive(PartialEq, Eq, Structural, Debug, Clone, Copy)]
pub enum ChainQuoteSelection {
    /// The position of the response whose patch holds the quotes.
    Patch(usize),
    /// No initial snapshot came.
    NoSnapshot,
    /// A snapshot came, but no patch that replaces the document.
    NoPatch,
    /// A response that had to be read could not be.
    Malformed,
}

/// First a snapshot must have come; then the quotes are taken from the
/// first patch that replaces the whole document.
pub open spec fn spec_chain_quote_selection(shapes: Seq<QuoteResponseShape>) -> ChainQuoteSelection {
    match search_outcome(snapshot_steps(shapes)) {
        ResponseSearch::NotFound => ChainQuoteSelection::NoSnapshot,
        ResponseSearch::Malformed => ChainQuoteSelection::Malformed,
        ResponseSearch::Found(_) => match search_outcome(patch_steps(shapes)) {
            ResponseSearch::NotFound => ChainQuoteSelection::NoPatch,
            ResponseSearch::Malformed => ChainQuoteSelection::Malformed,
            ResponseSearch::Found(p) => ChainQuoteSelection::Patch(p),
        },
    }
}

fn snapshot_step_of(shape: &QuoteResponseShape) -> (step: ScanStep)
    ensures
        step == snapshot_step(*shape),
{
    match &shape.header_type {
        FieldRead::Text(t) => if str_equals(t.as_str(), "snapshot") {
            ScanStep::Match
        } else {
            ScanStep::NoMatch
        },
        _ => ScanStep::Malformed,
    }
}

fn patch_step_of(shape: &QuoteResponseShape) -> (step: ScanStep)
    ensures
        step == patch_step(*shape),
{
    match shape.has_patch_op {
        None => ScanStep::Malformed,
        Some(false) => ScanStep::NoMatch,
        Some(true) => match (&shape.patch_op, &shape.patch_path) {
            (FieldRead::Text(op), FieldRead::Text(path)) => if str_equals(op.as_str(), "replace")
                && str_equals(path.as_str(), "") {
                ScanStep::Match
            } else {
                ScanStep::NoMatch
            },
            _ => ScanStep::Malformed,
        },
    }
}

/// Picks the response that carries the option-chain quotes out of the
/// responses gathered for a quotes request.
pub fn select_option_chain_quotes(shapes: &Vec<QuoteResponseShape>) -> (selection: ChainQuoteSelection)
    ensures
        selection == spec_chain_quote_selection(shapes@),
{
    let n = shapes.len();
    let mut snapshot: Vec<ScanStep> = Vec::new();
    let mut patch: Vec<ScanStep> = Vec::new();
    for i in 0..n
        invariant
            n == shapes.len(),
            snapshot@ == snapshot_steps(shapes@).take(i as int),
            patch@ == patch_steps(shapes@).take(i as int),
    {
        let s = snapshot_step_of(&shapes[i]);
        let p = patch_step_of(&shapes[i]);
        snapshot.push(s);
        patch.push(p);
        assert(snapshot@ =~= snapshot_steps(shapes@).take(i + 1));
        assert(patch@ =~= patch_steps(shapes@).take(i + 1));
    }
    assert(snapshot@ =~= snapshot_steps(shapes@));
    assert(patch@ =~= patch_steps(shapes@));
    match search_steps(&snapshot) {
        ResponseSearch::NotFound => ChainQuoteSelection::NoSnapshot,
        ResponseSearch::Malformed => ChainQuoteSelection::Malformed,
        ResponseSearch::Found(_) => match search_steps(&patch) {
            ResponseSearch::NotFound => ChainQuoteSelection::NoPatch,
            ResponseSearch::Malformed => ChainQuoteSelection::Malformed,
            ResponseSearch::Found(p) => ChainQuoteSelection::Patch(p),
        },
    }
}

/// How a login attempt was answered.
#[derive(PartialEq, Eq, Structural, Debug, Clone, Copy)]
pub enum LoginCheck {
    Accepted,
    /// The answer is refused as an invalid response.
    Refused,
    /// The answer carries no authentication status at all.
    Malformed,
}

/// A login is accepted when the authentication status of the answer is `OK`;
/// a status that cannot be read as text, or any other status, is refused.
pub open spec fn spec_login_check(status: FieldRead) -> LoginCheck {
    match status {
        FieldRead::Failed => LoginCheck::Refused,
        FieldRead::Absent => LoginCheck::Malformed,
        FieldRead::Text(t) => if t@ == "OK"@ {
            LoginCheck::Accepted
        } else {
            LoginCheck::Refused
        },
    }
}

/// Judges the answer to a login from the text at `authenticationStatus` of
/// its body.
pub fn check_login_status(status: &FieldRead) -> (check: LoginCheck)
    ensures
        check == spec_login_check(*status),
{
    match status {
        FieldRead::Failed => LoginCheck::Refused,
        FieldRead::Absent => LoginCheck::Malformed,
        FieldRead::Text(t) => if str_equals(t.as_str(), "OK") {
            LoginCheck::Accepted
        } else {
            LoginCheck::Refused
        },
    }
}

// ---------------------------------------------------------------------------
// Reading received messages

/// The text read at `path` of a received message; a message that is no JSON
/// reads as a failure, as every path of it does.
pub open spec fn text_read(message: Seq<u8>, path: Seq<char>) -> FieldRead {
    match json_text_at(message, path) {
        Some(read) => read,
        None => FieldRead::Failed,
    }
}

/// Reads the text at `path` of a received message.
fn text_read_of(message: &Vec<u8>, path: &str) -> (read: FieldRead)
    ensures
        read == text_read(message@, path@),
{
    match read_text_at(message, path) {
        Some(read) => read,
        None => FieldRead::Failed,
    }
}

/// A received message is a heartbeat when it is a JSON object with the key
/// `heartbeat`; `None` where it is no JSON object, on which the receiver
/// cannot go on.
pub fn is_heartbeat_message(message: &Vec<u8>) -> (heartbeat: Option<bool>)
    ensures
        heartbeat == match json_object_has_key(message@, "heartbeat"@) {
            Some(Some(found)) => Some(found),
            _ => None::<bool>,
        },
{
    match read_object_has_key(message, "heartbeat") {
        Some(Some(found)) => Some(found),
        _ => None,
    }
}

/// The texts at `payload.0.header.id` of the buffered messages.
pub open spec fn response_ids(messages: Seq<Vec<u8>>) -> Seq<FieldRead> {
    Seq::new(messages.len(), |k: int| text_read(messages[k]@, "payload.0.header.id"@))
}

/// Finds the first buffered message that answers the request `message_id`,
/// reading the id at `payload.0.header.id` of each message in order.
pub fn find_message_response(messages: &Vec<Vec<u8>>, message_id: &str) -> (search: ResponseSearch)
    ensures
        search == search_outcome(message_id_steps(response_ids(messages@), message_id@)),
{
    let n = messages.len();
    let mut ids: Vec<FieldRead> = Vec::new();
    for i in 0..n
        invariant
            n == messages.len(),
            ids@ == response_ids(messages@).take(i as int),
    {
        let id = text_read_of(&messages[i], "payload.0.header.id");
        ids.push(id);
        assert(ids@ =~= response_ids(messages@).take(i + 1));
    }
    assert(ids@ =~= response_ids(messages@));
    find_response_by_message_id(&ids, message_id)
}

/// What the option-chain quote search reads of a received message.
pub open spec fn quote_shape_of(message: Seq<u8>) -> QuoteResponseShape {
    QuoteResponseShape {
        header_type: text_read(message, "payload.0.header.type"@),
        has_patch_op: match json_has_at(message, "payload.0.body.patches.0.op"@) {
            Some(Ok(found)) => Some(found),
            _ => None,
        },
        patch_op: text_read(message, "payload.0.body.patches.0.op"@),
        patch_path: text_read(message, "payload.0.body.patches.0.path"@),
    }
}

/// Reads what the option-chain quote search needs of a received message.
pub fn read_quote_response_shape(message: &Vec<u8>) -> (shape: QuoteResponseShape)
    ensures
        shape == quote_shape_of(message@),
{
    let has_patch_op = match read_has_at(message, "payload.0.body.patches.0.op") {
        Some(Ok(found)) => Some(found),
        _ => None,
    };
    QuoteResponseShape {
        header_type: text_read_of(message, "payload.0.header.type"),
        has_patch_op,
        patch_op: text_read_of(message, "payload.0.body.patches.0.op"),
        patch_path: text_read_of(message, "payload.0.body.patches.0.path"),
    }
}

/// The quote-search shapes of the gathered messages.
pub open spec fn quote_shapes(messages: Seq<Vec<u8>>) -> Seq<QuoteResponseShape> {
    Seq::new(messages.len(), |k: int| quote_shape_of(messages[k]@))
}

/// Picks the message that carries the option-chain quotes out of the
/// messages gathered for a quotes request.
pub fn select_option_chain_quote_message(messages: &Vec<Vec<u8>>) -> (selection: ChainQuoteSelection)
    ensures
        selection == spec_chain_quote_selection(quote_shapes(messages@)),
{
    let n = messages.len();
    let mut shapes: Vec<QuoteResponseShape> = Vec::new();
    for i in 0..n
        invariant
            n == messages.len(),
            shapes@ == quote_shapes(messages@).take(i as int),
    {
        let shape = read_quote_response_shape(&messages[i]);
        shapes.push(shape);
        assert(shapes@ =~= quote_shapes(messages@).take(i + 1));
    }
    assert(shapes@ =~= quote_shapes(messages@));
    select_option_chain_quotes(&shapes)
}

/// Judges the answer to a login from the text at
/// `payload.0.body.authenticationStatus` of the received message.
pub fn check_login_answer(message: &Vec<u8>) -> (check: LoginCheck)
    ensures
        check == spec_login_check(text_read(message@, "payload.0.body.authenticationStatus"@)),
{
    let status = text_read_of(message, "payload.0.body.authenticationStatus");
    check_login_status(&status)
}

} // verus!
