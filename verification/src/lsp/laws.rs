//! What is asked of the language server, and what becomes of its answers, told by the
//! messages themselves.

use vstd::prelude::*;

#[allow(unused_imports)]
use crate::file_path::{narrow, shown, wide};
#[allow(unused_imports)]
use crate::json::Value;
#[allow(unused_imports)]
use crate::lsp::{
    calls_of, file_uri, hit_at, initialize_value, is_uri, kind_of, locations_of, prepared,
    references_asked, symbol_path, symbol_position, symbols_asked, symbols_of, uri_file,
    CallDirection, CallHierarchyItem, ClientView, EventView, Fault, HitView, Location, LspError,
    Pending, ReactionView, Request, SymbolView, WorkspaceSymbol, WorkspaceSymbolInformation,
    PATIENCE,
};
#[allow(unused_imports)]
use crate::paths::relative;

verus! {

/// A request as it goes to the server.
pub open spec fn asks(message: Value, id: i64, method: Seq<char>, params: Value) -> bool {
    message == Value::Object(
        seq![
            ("jsonrpc"@, Value::Text("2.0"@)),
            ("id"@, Value::Integer(id as int)),
            ("method"@, Value::Text(method)),
            ("params"@, params),
        ],
    )
}

/// A place in a document as the server counts it, from zero.
pub open spec fn place(uri: Seq<char>, line: int, character: int) -> Seq<(Seq<char>, Value)> {
    seq![
        ("textDocument"@, Value::Object(seq![("uri"@, Value::Text(uri))])),
        (
            "position"@,
            Value::Object(
                seq![("line"@, Value::Integer(line)), ("character"@, Value::Integer(character))],
            ),
        ),
    ]
}

/// An answer without an error: its number, and what it holds.
pub open spec fn is_answer(value: Value, id: i64, items: Seq<Value>) -> bool {
    &&& value.text_field("method"@) is None
    &&& value.integer_field("id"@) == Some(id as int)
    &&& value.field("result"@) == Some(Value::List(items))
}

/// The callers of a symbol are asked for by `callHierarchy/incomingCalls`, and what it
/// calls by `callHierarchy/outgoingCalls`, for the first item that the server prepared.
/// The answer to that is read as callers, or as callees, for the pane that asked.
pub proof fn law_calls_are_asked_for(
    client: ClientView,
    id: i64,
    key: Seq<char>,
    value: Value,
    items: Seq<Value>,
    reply: Value,
)
    requires
        id != 0,
        client.next_id != 0,
        items.len() > 0,
        is_answer(value, id, items),
        is_answer(reply, client.next_id, Seq::empty()),
        client.pending.contains_key(id),
    ensures
        client.pending[id] == (Pending::PrepareCallHierarchy {
            key,
            direction: CallDirection::Incoming,
        }) ==> {
            let (after, reaction) = client.received(value, None, None);
            &&& reaction matches ReactionView::Send(sent)
            &&& asks(
                sent,
                client.next_id,
                "callHierarchy/incomingCalls"@,
                Value::Object(seq![("item"@, items[0])]),
            )
            &&& after.received(reply, None, None).1 == (ReactionView::ReadCalls {
                key,
                direction: CallDirection::Incoming,
            })
        },
        client.pending[id] == (Pending::PrepareCallHierarchy {
            key,
            direction: CallDirection::Outgoing,
        }) ==> {
            let (after, reaction) = client.received(value, None, None);
            &&& reaction matches ReactionView::Send(sent)
            &&& asks(
                sent,
                client.next_id,
                "callHierarchy/outgoingCalls"@,
                Value::Object(seq![("item"@, items[0])]),
            )
            &&& after.received(reply, None, None).1 == (ReactionView::ReadCalls {
                key,
                direction: CallDirection::Outgoing,
            })
        },
{
}

/// Where the server prepared nothing, the pane that asked is told of no calls, and
/// nothing more is asked.
pub proof fn law_no_calls_to_ask_for(
    client: ClientView,
    id: i64,
    key: Seq<char>,
    direction: CallDirection,
    value: Value,
)
    requires
        id != 0,
        is_answer(value, id, Seq::empty()),
        client.pending.contains_key(id),
        client.pending[id] == (Pending::PrepareCallHierarchy { key, direction }),
    ensures
        client.received(value, None, None).1 == ReactionView::Tell(
            EventView::CallHierarchy { key, direction, hits: Seq::empty() },
        ),
        client.received(value, None, None).0.next_id == client.next_id,
        client.received(value, None, None).0.pending == client.pending.remove(id),
{
}

/// A query asks for the symbols of the workspace, and its answer is read as symbols
/// for that very query.
pub proof fn law_symbols_are_asked_for(
    before: ClientView,
    after: ClientView,
    query: Seq<char>,
    request: Request,
    reply: Value,
    items: Seq<Value>,
)
    requires
        symbols_asked(before, after, query, request),
        before.next_id != 0,
        is_answer(reply, before.next_id, items),
    ensures
        asks(
            request.message@,
            before.next_id,
            "workspace/symbol"@,
            Value::Object(seq![("query"@, Value::Text(query))]),
        ),
        request.id == before.next_id,
        after.next_id != before.next_id,
        after.root == before.root,
        after.received(reply, None, None).1 == (ReactionView::ReadSymbols {
            request_id: request.id,
            query,
        }),
{
}

/// References are asked for at the place of the symbol, counted from zero, without the
/// declaration. The answer is read as places for the pane that asked.
pub proof fn law_references_are_asked_for(
    before: ClientView,
    after: ClientView,
    symbol: SymbolView,
    key: Seq<char>,
    r: Result<Request, LspError>,
    reply: Value,
    items: Seq<Value>,
)
    requires
        references_asked(before, after, symbol, key, r),
        r is Ok,
        symbol.line > 0,
        symbol.column > 0,
        before.next_id != 0,
        is_answer(reply, before.next_id, items),
        file_uri(narrow(symbol_path(before.root, symbol.file))) is Some,
    ensures
        ({
            let request = r->Ok_0;
            let uri = file_uri(narrow(symbol_path(before.root, symbol.file)))->0;
            &&& request.id == before.next_id
            &&& asks(
                request.message@,
                before.next_id,
                "textDocument/references"@,
                Value::Object(
                    place(uri, symbol.line - 1, symbol.column - 1).push(
                        (
                            "context"@,
                            Value::Object(seq![("includeDeclaration"@, Value::Bool(false))]),
                        ),
                    ),
                ),
            )
            &&& after.received(reply, None, None).1 == (ReactionView::ReadLocations { key })
        }),
{
}

/// Before callers or callees are asked for, the symbol's place is prepared for it, and
/// the client remembers which of them, and for which pane.
pub proof fn law_calls_are_prepared(
    before: ClientView,
    after: ClientView,
    symbol: SymbolView,
    key: Seq<char>,
    direction: CallDirection,
    r: Result<Request, LspError>,
)
    requires
        prepared(before, after, symbol, key, direction, r),
        r is Ok,
        symbol.line > 0,
        symbol.column > 0,
        file_uri(narrow(symbol_path(before.root, symbol.file))) is Some,
    ensures
        ({
            let request = r->Ok_0;
            let uri = file_uri(narrow(symbol_path(before.root, symbol.file)))->0;
            &&& request.id == before.next_id
            &&& asks(
                request.message@,
                before.next_id,
                "textDocument/prepareCallHierarchy"@,
                Value::Object(place(uri, symbol.line - 1, symbol.column - 1)),
            )
            &&& after.pending.contains_key(request.id)
            &&& after.pending[request.id] == (Pending::PrepareCallHierarchy { key, direction })
        }),
{
}

/// The file of a symbol is sought below the root of the workspace, unless its path is
/// absolute.
pub proof fn law_files_lie_below_the_root(root: Seq<char>, file: Seq<char>)
    requires
        root.len() > 0,
    ensures
        file.len() > 0 && file[0] == '/' ==> symbol_path(root, file) == file,
        !(file.len() > 0 && file[0] == '/') && root.last() != '/' ==> symbol_path(root, file)
            == root + seq!['/'] + file,
        !(file.len() > 0 && file[0] == '/') && root.last() == '/' ==> symbol_path(root, file)
            == root + file,
{
    reveal_strlit("/");
    assert("/"@ =~= seq!['/']);
}

/// A place that the server tells, counted from zero, is asked for again at the same
/// place: it is shown counted from one.
pub proof fn law_places_are_counted_from_one(
    symbol: WorkspaceSymbolInformation,
    root: Seq<char>,
    context: Option<Value>,
)
    requires
        symbol.location.range.countable(),
        is_uri(symbol.location.uri@),
        uri_file(symbol.location.uri@) is Some,
    ensures
        ({
            let read = symbol.symbol(root);
            let start = symbol.location.range.start;
            let hit = hit_at(symbol.location.uri@, symbol.location.range, root, None, None, None);
            &&& read matches Ok(found)
            &&& found.name == symbol.name@
            &&& found.line == start.line + 1
            &&& found.column == start.character + 1
            &&& found.end_line == symbol.location.range.end.line + 1
            &&& found.file == relative(wide(uri_file(symbol.location.uri@)->0), root)
            &&& hit matches Ok(place_found)
            &&& place_found.line == start.line + 1
            &&& place_found.column == start.character + 1
            &&& place_found.file == found.file
            &&& file_uri(narrow(symbol_path(root, found.file))) matches Some(uri) ==> (
            symbol_position(root, found, None) matches Ok(params) && params == Value::Object(
                place(uri, start.line as int, start.character as int),
            ))
        }),
{
}

/// What the server cannot answer is told where it was asked for: a failed query to
/// the user, and the rest to its pane.
pub proof fn law_errors_go_where_asked(client: ClientView, id: i64, value: Value, text: Seq<char>)
    requires
        id != 0,
        value.text_field("method"@) is None,
        value.integer_field("id"@) == Some(id as int),
        client.pending.contains_key(id),
    ensures
        ({
            let told = client.received(value, Some(text), None).1;
            match client.pending[id] {
                Pending::WorkspaceSymbol { query } => told == ReactionView::Tell(
                    EventView::Error(text),
                ),
                Pending::References { key } => told == ReactionView::Tell(
                    EventView::SideError { key, message: text },
                ),
                Pending::PrepareCallHierarchy { key, direction } => told == ReactionView::Tell(
                    EventView::SideError { key, message: text },
                ),
                Pending::IncomingCalls { key } => told == ReactionView::Tell(
                    EventView::SideError { key, message: text },
                ),
                Pending::OutgoingCalls { key } => told == ReactionView::Tell(
                    EventView::SideError { key, message: text },
                ),
            }
        }),
        client.received(value, Some(text), None).0.pending == client.pending.remove(id),
{
}

/// The first answer makes the server ready: it is told `initialized`, and that is all.
pub proof fn law_first_answer_makes_ready(client: ClientView, value: Value)
    requires
        value.text_field("method"@) is None,
        value.integer_field("id"@) == Some(0int),
    ensures
        client.received(value, None, None) == (
            client,
            ReactionView::Ready(
                Value::Object(
                    seq![
                        ("jsonrpc"@, Value::Text("2.0"@)),
                        ("method"@, Value::Text("initialized"@)),
                        ("params"@, Value::Object(Seq::empty())),
                    ],
                ),
            ),
        ),
{
}

/// The first request names the root of the workspace by its URI, and tells whose
/// process asks.
pub proof fn law_first_request(root: Seq<char>, uri: Seq<char>, process_id: u32)
    ensures
        ({
            let message = initialize_value(root, uri, process_id);
            &&& message matches Value::Object(fields)
            &&& fields.len() == 4
            &&& fields[0] == ("jsonrpc"@, Value::Text("2.0"@))
            &&& fields[1] == ("id"@, Value::Integer(0))
            &&& fields[2] == ("method"@, Value::Text("initialize"@))
            &&& fields[3].0 == "params"@
            &&& fields[3].1 matches Value::Object(params)
            &&& params.len() == 5
            &&& params[0] == ("processId"@, Value::Integer(process_id as int))
            &&& params[1] == ("rootUri"@, Value::Text(uri))
            &&& params[2].0 == "workspaceFolders"@
            &&& params[2].1 matches Value::List(folders)
            &&& folders.len() == 1
            &&& folders[0] matches Value::Object(folder)
            &&& folder.len() == 2
            &&& folder[0] == ("uri"@, Value::Text(uri))
            &&& folder[1].0 == "name"@
            &&& params[3].0 == "capabilities"@
            &&& params[4].0 == "initializationOptions"@
        }),
{
}

/// A request of the server is answered under its own number: its configuration by as
/// many empty objects as it asks for, and what the client knows nothing of by nothing.
pub proof fn law_requests_of_the_server_are_answered(
    client: ClientView,
    value: Value,
    id: Value,
    method: Seq<char>,
    items: Seq<Value>,
    params: Value,
)
    requires
        value.text_field("method"@) == Some(method),
        method != "$/progress"@,
        value.field("id"@) == Some(id),
        value.field("params"@) == Some(params),
        params.field("items"@) == Some(Value::List(items)),
    ensures
        method == "workspace/configuration"@ ==> {
            let (after, reaction) = client.received(value, None, None);
            &&& after == client
            &&& reaction matches ReactionView::Send(sent)
            &&& sent matches Value::Object(fields)
            &&& fields.len() == 3
            &&& fields[0] == ("jsonrpc"@, Value::Text("2.0"@))
            &&& fields[1] == ("id"@, id)
            &&& fields[2].0 == "result"@
            &&& fields[2].1 matches Value::List(list)
            &&& list.len() == items.len()
            &&& forall|i: int|
                0 <= i < list.len() ==> #[trigger] list[i] == Value::Object(Seq::empty())
        },
        method != "workspace/configuration"@ && method != "workspace/workspaceFolders"@ ==> {
            let (after, reaction) = client.received(value, None, None);
            &&& after == client
            &&& reaction == ReactionView::Send(
                Value::Object(
                    seq![
                        ("jsonrpc"@, Value::Text("2.0"@)),
                        ("id"@, id),
                        ("result"@, Value::Null),
                    ],
                ),
            )
        },
{
}

/// A progress goes on until it ends. Its message is told, or else its title.
pub proof fn law_progress_is_told(
    client: ClientView,
    value: Value,
    token: Seq<char>,
    params: Value,
    progress: Value,
    kind: Seq<char>,
)
    requires
        value.text_field("method"@) == Some("$/progress"@),
        value.field("params"@) == Some(params),
        params.field("token"@) is Some,
        params.field("value"@) == Some(progress),
        progress.text_field("kind"@) == Some(kind),
    ensures
        ({
            let (after, reaction) = client.received(value, None, Some(token));
            &&& after == client
            &&& reaction matches ReactionView::Tell(event)
            &&& event matches EventView::Progress { token: told, active, message }
            &&& told == token
            &&& active == (kind != "end"@)
            &&& progress.text_field("message"@) matches Some(text) ==> message == text
            &&& progress.text_field("message"@) is None ==> (progress.text_field(
                "title"@,
            ) matches Some(title) ==> message == title)
        }),
{
}

/// The kinds of symbols have the numbers of the protocol.
pub proof fn law_kinds_have_their_numbers(number: int)
    ensures
        ({
            let names = seq![
                "File"@,
                "Module"@,
                "Namespace"@,
                "Package"@,
                "Class"@,
                "Method"@,
                "Property"@,
                "Field"@,
                "Constructor"@,
                "Enum"@,
                "Interface"@,
                "Function"@,
                "Variable"@,
                "Constant"@,
                "String"@,
                "Number"@,
                "Boolean"@,
                "Array"@,
                "Object"@,
                "Key"@,
                "Null"@,
                "EnumMember"@,
                "Struct"@,
                "Event"@,
                "Operator"@,
                "TypeParameter"@,
            ];
            &&& 1 <= number <= 26 ==> kind_of(number).name() == names[number - 1]
            &&& !(1 <= number <= 26) ==> kind_of(number).name() == "Unknown"@
        }),
{
}

/// The symbols and places of an answer keep their order: those of two lists, one behind the
/// other, are those of the first and then those of the second. A symbol without a place is
/// left out, and one fault is the fault of all.
pub proof fn law_answers_keep_their_order(
    a: Seq<WorkspaceSymbol>,
    b: Seq<WorkspaceSymbol>,
    root: Seq<char>,
)
    ensures
        symbols_of(a, root) is Ok && symbols_of(b, root) is Ok ==> symbols_of(a + b, root) == Ok::<
            Seq<SymbolView>,
            Fault,
        >(symbols_of(a, root)->Ok_0 + symbols_of(b, root)->Ok_0),
        symbols_of(a, root) is Err ==> symbols_of(a + b, root) == symbols_of(a, root),
        b.len() == 1 && symbols_of(a, root) is Ok ==> match b[0].symbol(root) {
            None => symbols_of(a + b, root) == symbols_of(a, root),
            Some(Ok(symbol)) => symbols_of(a + b, root) == Ok::<Seq<SymbolView>, Fault>(
                symbols_of(a, root)->Ok_0.push(symbol),
            ),
            Some(Err(fault)) => symbols_of(a + b, root) == Err::<Seq<SymbolView>, Fault>(fault),
        },
    decreases b.len(),
{
    if b.len() == 0 {
        assert(a + b =~= a);
        if symbols_of(a, root) is Ok {
            let all = symbols_of(a, root)->Ok_0;
            assert(all + Seq::<SymbolView>::empty() =~= all);
        }
    } else {
        let rest = b.drop_last();
        law_answers_keep_their_order(a, rest, root);
        assert((a + b).drop_last() =~= a + rest);
        assert((a + b).last() == b.last());
        if b.len() == 1 {
            assert(a + rest =~= a);
        }
        if symbols_of(a, root) is Ok && symbols_of(rest, root) is Ok {
            let one = symbols_of(a, root)->Ok_0;
            let two = symbols_of(rest, root)->Ok_0;
            if let Some(Ok(symbol)) = b.last().symbol(root) {
                assert(one + two.push(symbol) =~= (one + two).push(symbol));
            }
        }
    }
}

/// Each place of an answer is shown, in order, at its own line and column.
pub proof fn law_places_keep_their_order(list: Seq<Location>, root: Seq<char>, i: int)
    requires
        locations_of(list, root) is Ok,
        0 <= i < list.len(),
    ensures
        locations_of(list, root)->Ok_0.len() == list.len(),
        hit_at(list[i].uri@, list[i].range, root, None, None, None) == Ok::<HitView, Fault>(
            locations_of(list, root)->Ok_0[i],
        ),
    decreases list.len(),
{
    let rest = list.drop_last();
    if i < rest.len() {
        law_places_keep_their_order(rest, root, i);
        assert(rest[i] == list[i]);
    } else if rest.len() > 0 {
        law_places_keep_their_order(rest, root, 0);
    }
}

/// Each caller or callee of an answer is shown, in order.
pub proof fn law_calls_keep_their_order(list: Seq<CallHierarchyItem>, root: Seq<char>, i: int)
    requires
        calls_of(list, root) is Ok,
        0 <= i < list.len(),
    ensures
        calls_of(list, root)->Ok_0.len() == list.len(),
        ({
            let hit = calls_of(list, root)->Ok_0[i];
            let item = list[i];
            &&& item.hit(root) == Ok::<HitView, Fault>(hit)
            &&& hit.name == Some(item.name@)
            &&& hit.kind == Some(kind_of(item.kind as int))
            &&& item.selection_range.start.countable() ==> hit.line
                == item.selection_range.start.line + 1 && hit.column
                == item.selection_range.start.character + 1
        }),
    decreases list.len(),
{
    let rest = list.drop_last();
    if i < rest.len() {
        law_calls_keep_their_order(rest, root, i);
        assert(rest[i] == list[i]);
    } else if rest.len() > 0 {
        law_calls_keep_their_order(rest, root, 0);
    }
}

/// Each request has a number of its own: the next one has the next number.
pub proof fn law_requests_are_numbered(client: ClientView)
    requires
        client.next_id < i64::MAX,
    ensures
        client.numbered().next_id == client.next_id + 1,
        client.numbered().pending == client.pending,
        client.numbered().root == client.root,
{
}

/// What goes wrong with the server is told with the path or the URI that it is about. An
/// answer is waited for twenty seconds.
pub proof fn law_faults_are_told(text: Seq<char>)
    ensures
        Fault::NoUri(text).text() == "failed to convert path to file URI: "@ + text,
        Fault::InvalidUri(text).text() == "invalid URI from language server: "@ + text,
        Fault::NotAFile(text).text() == "non-file URI from language server: "@ + text,
        Fault::MissingLength.text() == "LSP message missing Content-Length"@,
        Fault::NotText.text() == "stream did not contain valid UTF-8"@,
        Fault::CutOff.text() == "failed to fill whole buffer"@,
        PATIENCE == 20 * 1000,
{
}

/// An error that belongs to no request is told to the user, and what is neither an error, nor
/// an answer, nor a message of the server is passed over. A message that asks for nothing is
/// not answered.
pub proof fn law_other_messages(client: ClientView, value: Value, text: Seq<char>)
    ensures
        value.text_field("method"@) is None && value.integer_field("id"@) is None ==> {
            &&& client.received(value, Some(text), None) == (
                client,
                ReactionView::Tell(EventView::Error(text)),
            )
            &&& client.received(value, None, None) == (client, ReactionView::Ignore)
        },
        value.text_field("method"@) is Some && value.field("id"@) is None ==> client.received(
            value,
            None,
            None,
        ) == (client, ReactionView::Ignore),
{
}

} // verus!
