use innards::json::{list_of, object1, object2, object3, text_of, Json};
use innards::lsp::frame::{frame, read_message, Taken};
use innards::file_path::FilePath;
use innards::lsp::{
    message_header, parse_calls, parse_locations, parse_symbols, path_to_uri, position_params,
    uri_to_path, wait_for_ready, CallDirection, CallHierarchyItem, Deadline, Header, Location,
    LspClient, LspError, LspEvent, Message, PartialWorkspaceSymbol, Position, Range, Reaction,
    Symbol, SymbolKind, Waited, WorkspaceSymbol, WorkspaceSymbolInformation, PATIENCE,
};
use innards::paths::relative_file;

fn range(line: u32, character: u32) -> Range {
    Range {
        start: Position { line, character },
        end: Position { line: line + 2, character },
    }
}

fn location(uri: &str) -> Location {
    Location { uri: uri.to_string(), range: range(4, 7) }
}

fn symbol(file: &str) -> Symbol {
    Symbol {
        name: "main".to_string(),
        kind: SymbolKind::Function,
        file: FilePath::of_text(file),
        line: 5,
        end_line: 7,
        column: 8,
        container_name: None,
    }
}

fn message(value: Json) -> Message {
    Message { value, error_text: None, token_text: None }
}

fn answer(id: i64, result: Json) -> Message {
    message(object2("id", Json::Integer(id), "result", result))
}

fn client() -> LspClient {
    LspClient::new(FilePath::of_text("/work/demo"))
}

#[test]
fn kinds_have_numbers_and_labels() {
    assert_eq!(SymbolKind::from_u64(12).label(), "Function");
    assert_eq!(SymbolKind::from_u64(23), SymbolKind::Struct);
    assert_eq!(SymbolKind::from_u64(26), SymbolKind::TypeParameter);
    assert_eq!(SymbolKind::from_u64(0), SymbolKind::Unknown);
    assert_eq!(SymbolKind::from_u64(27).label(), "Unknown");
    assert!(SymbolKind::Module.is_broad_container());
    assert!(!SymbolKind::Struct.is_broad_container());
}

#[test]
fn paths_and_uris_are_turned_into_each_other() {
    assert_eq!(path_to_uri(&FilePath::of_text("/work/de mo")).unwrap(), "file:///work/de%20mo/");
    assert_eq!(
        path_to_uri(&FilePath::of_text("work")),
        Err(LspError::NoUri("work".to_string()))
    );
    assert_eq!(uri_to_path("file:///work/de%20mo/a.rs").unwrap().text(), "/work/de mo/a.rs");
    assert_eq!(uri_to_path("not a uri"), Err(LspError::InvalidUri("not a uri".to_string())));
    assert_eq!(
        uri_to_path("http://x/y"),
        Err(LspError::NotAFile("http://x/y".to_string()))
    );
    assert_eq!(
        uri_to_path("http://x/y").unwrap_err().message(),
        "non-file URI from language server: http://x/y"
    );
}

#[test]
fn symbols_are_read_and_counted_from_one() {
    let whole = WorkspaceSymbol::Symbol(WorkspaceSymbolInformation {
        name: "a".to_string(),
        kind: 12,
        location: location("file:///work/demo/src/a.rs"),
        container_name: Some("m".to_string()),
    });
    let partial = |location: Option<Location>| {
        WorkspaceSymbol::Partial(PartialWorkspaceSymbol {
            name: "b".to_string(),
            kind: 5,
            location,
            container_name: None,
        })
    };
    let list = vec![whole, partial(None), partial(Some(location("file:///other/b.rs")))];
    let symbols = parse_symbols(list, &FilePath::of_text("/work/demo")).unwrap();
    assert_eq!(symbols.len(), 2);
    assert_eq!(symbols[0].file.text(), "src/a.rs");
    assert_eq!((symbols[0].line, symbols[0].end_line, symbols[0].column), (5, 7, 8));
    assert_eq!(symbols[0].container_name, Some("m".to_string()));
    assert_eq!(symbols[1].file.text(), "/other/b.rs");
    assert_eq!(symbols[1].kind, SymbolKind::Class);
    let bad = vec![partial(Some(location("http://x/")))];
    assert!(parse_symbols(bad, &FilePath::of_text("/work/demo")).is_err());
}

#[test]
fn places_and_calls_are_read() {
    let root = FilePath::of_text("/work/demo");
    let hits = parse_locations(vec![location("file:///work/demo/a.rs")], &root).unwrap();
    assert_eq!((hits[0].file.text().as_str(), hits[0].line, hits[0].column), ("a.rs", 5, 8));
    assert_eq!((hits[0].name.as_ref(), hits[0].kind), (None, None));
    let call = CallHierarchyItem {
        name: "f".to_string(),
        kind: 6,
        uri: "file:///work/demo/b.rs".to_string(),
        selection_range: range(0, 0),
        detail: Some("impl X".to_string()),
    };
    let hits = parse_calls(vec![call], &root).unwrap();
    assert_eq!(hits[0].name, Some("f".to_string()));
    assert_eq!(hits[0].kind, Some(SymbolKind::Method));
    assert_eq!((hits[0].line, hits[0].column), (1, 1));
    assert!(!range(u32::MAX - 2, u32::MAX).is_countable());
    assert!(range(1, 1).is_countable());
}

#[test]
fn requests_are_numbered_from_a_million() {
    let mut client = client();
    let request = client.workspace_symbol("main".to_string());
    assert_eq!(request.id, 1_000_000);
    assert_eq!(request.message.get_text("method"), Some("workspace/symbol"));
    assert_eq!(request.message.get_text("jsonrpc"), Some("2.0"));
    assert_eq!(request.message.get("params").unwrap().get_text("query"), Some("main"));
    let request = client.references(&symbol("src/a.rs"), "k".to_string()).unwrap();
    assert_eq!(request.id, 1_000_001);
    let params = request.message.get("params").unwrap();
    let document = params.get("textDocument").unwrap();
    assert_eq!(document.get_text("uri"), Some("file:///work/demo/src/a.rs"));
    assert_eq!(params.get("position").unwrap().get_integer("line"), Some(4));
    assert_eq!(params.get("position").unwrap().get_integer("character"), Some(7));
    assert_eq!(
        params.get("context").unwrap().get("includeDeclaration"),
        Some(&Json::Bool(false))
    );
    let request = client.incoming_calls(&symbol("/x.rs"), "k".to_string()).unwrap();
    assert_eq!(request.message.get_text("method"), Some("textDocument/prepareCallHierarchy"));
    assert!(request.message.get("params").unwrap().get("context").is_none());
    let (shutdown, exit) = client.shutdown();
    assert_eq!(shutdown.get_integer("id"), Some(1_000_003));
    assert_eq!(exit.get_text("method"), Some("exit"));
    let mut nowhere = LspClient::new(FilePath::of_text("work"));
    assert_eq!(
        nowhere.outgoing_calls(&symbol("a.rs"), "k".to_string()),
        Err(LspError::NoUri("work/a.rs".to_string()))
    );
    assert!(nowhere.initialize(1).is_err());
}

#[test]
fn first_request_names_the_workspace() {
    let message = client().initialize(42).unwrap();
    assert_eq!(message.get_integer("id"), Some(0));
    let params = message.get("params").unwrap();
    assert_eq!(params.get_integer("processId"), Some(42));
    assert_eq!(params.get_text("rootUri"), Some("file:///work/demo/"));
    let Some(Json::List(folders)) = params.get("workspaceFolders") else {
        panic!("no folders");
    };
    assert_eq!(folders[0].get_text("name"), Some("demo"));
    let symbol = params.get("capabilities").unwrap().get("workspace").unwrap().get("symbol");
    let Some(Json::List(kinds)) = symbol.unwrap().get("symbolKind").unwrap().get("valueSet")
    else {
        panic!("no kinds");
    };
    assert_eq!(kinds.len(), 26);
    assert_eq!(kinds[25], Json::Integer(26));
    assert_eq!(LspClient::new(FilePath::of_text("/")).root().text(), "/");
}

#[test]
fn positions_do_not_go_below_zero() {
    let params = position_params("file:///a", 0, 1, None);
    assert_eq!(params.get("position").unwrap().get_integer("line"), Some(0));
    assert_eq!(params.get("position").unwrap().get_integer("character"), Some(0));
}

#[test]
fn answers_are_matched_to_requests_once() {
    let mut client = client();
    let id = client.workspace_symbol("q".to_string()).id;
    assert_eq!(client.receive(answer(id + 1, Json::Null)), Reaction::Ignore);
    assert_eq!(
        client.receive(answer(id, Json::Null)),
        Reaction::ReadSymbols { request_id: id, query: "q".to_string() }
    );
    assert_eq!(client.receive(answer(id, Json::Null)), Reaction::Ignore);
    assert_eq!(
        client.symbols_event(id, "q".to_string(), None).unwrap(),
        LspEvent::Symbols { request_id: id, query: "q".to_string(), symbols: Vec::new() }
    );
}

#[test]
fn answers_become_events() {
    let client = client();
    let told = client.references_event("k".to_string(), Some(vec![location("file:///x/a.rs")]));
    let Ok(LspEvent::References { key, hits }) = told else {
        panic!("no references");
    };
    assert_eq!((key.as_str(), hits.len(), hits[0].file.text().as_str()), ("k", 1, "/x/a.rs"));
    assert_eq!(
        client.references_event("k".to_string(), Some(vec![location("no uri")])),
        Err(LspError::InvalidUri("no uri".to_string()))
    );
    let item = CallHierarchyItem {
        name: "f".to_string(),
        kind: 12,
        uri: "file:///work/demo/b.rs".to_string(),
        selection_range: range(0, 3),
        detail: None,
    };
    let told = client.calls_event("k".to_string(), CallDirection::Outgoing, Some(vec![item]));
    let Ok(LspEvent::CallHierarchy { direction, hits, .. }) = told else {
        panic!("no calls");
    };
    assert_eq!(direction, CallDirection::Outgoing);
    assert_eq!((hits[0].file.text().as_str(), hits[0].line, hits[0].column), ("b.rs", 1, 4));
    assert_eq!(
        client.calls_event("k".to_string(), CallDirection::Incoming, None).unwrap(),
        LspEvent::CallHierarchy {
            key: "k".to_string(),
            direction: CallDirection::Incoming,
            hits: Vec::new(),
        }
    );
}

#[test]
fn first_answer_makes_the_server_ready() {
    let mut client = client();
    let Reaction::Ready(told) = client.receive(answer(0, Json::Null)) else {
        panic!("not ready");
    };
    assert_eq!(told.get_text("method"), Some("initialized"));
}

#[test]
fn call_hierarchies_are_asked_for_in_two_steps() {
    let mut client = client();
    let id = client.outgoing_calls(&symbol("/a.rs"), "k".to_string()).unwrap().id;
    let item = object1("name", text_of("f"));
    let Reaction::Send(next) = client.receive(answer(id, list_of(vec![item]))) else {
        panic!("nothing sent");
    };
    assert_eq!(next.get_text("method"), Some("callHierarchy/outgoingCalls"));
    let sent = next.get("params").unwrap().get("item").unwrap();
    assert_eq!(sent.get_text("name"), Some("f"));
    let next_id = next.get_integer("id").unwrap();
    assert_eq!(
        client.receive(answer(next_id, Json::Null)),
        Reaction::ReadCalls { key: "k".to_string(), direction: CallDirection::Outgoing }
    );
    let id = client.incoming_calls(&symbol("/a.rs"), "k".to_string()).unwrap().id;
    assert_eq!(
        client.receive(answer(id, list_of(Vec::new()))),
        Reaction::Tell(LspEvent::CallHierarchy {
            key: "k".to_string(),
            direction: CallDirection::Incoming,
            hits: Vec::new(),
        })
    );
}

#[test]
fn errors_are_told() {
    let mut client = client();
    let id = client.references(&symbol("/a.rs"), "k".to_string()).unwrap().id;
    let error = object2("id", Json::Integer(id), "error", Json::Null);
    let told = Message { value: error, error_text: Some("null".to_string()), token_text: None };
    assert!(told.is_whole());
    assert_eq!(
        client.receive(told),
        Reaction::Tell(LspEvent::SideError { key: "k".to_string(), message: "null".to_string() })
    );
    let error = object1("error", text_of("x"));
    let told = Message { value: error, error_text: Some("\"x\"".to_string()), token_text: None };
    assert_eq!(client.receive(told), Reaction::Tell(LspEvent::Error("\"x\"".to_string())));
    let bare = object1("error", text_of("x"));
    assert!(!message(bare).is_whole());
}

#[test]
fn requests_of_the_server_are_answered() {
    let mut client = client();
    let asks = |method: &str, params: Json| {
        message(object3("id", Json::Integer(9), "method", text_of(method), "params", params))
    };
    let items = object1("items", list_of(vec![Json::Null, Json::Null]));
    let Reaction::Send(told) = client.receive(asks("workspace/configuration", items)) else {
        panic!("no answer");
    };
    assert_eq!(told.get_integer("id"), Some(9));
    assert_eq!(
        told.get("result"),
        Some(&Json::List(vec![Json::Object(Vec::new()), Json::Object(Vec::new())]))
    );
    let Reaction::Send(told) = client.receive(asks("workspace/workspaceFolders", Json::Null))
    else {
        panic!("no answer");
    };
    let Some(Json::List(folders)) = told.get("result") else {
        panic!("no folders");
    };
    assert_eq!(folders[0].get_text("uri"), Some("file:///work/demo/"));
    let Reaction::Send(told) = client.receive(asks("client/registerCapability", Json::Null))
    else {
        panic!("no answer");
    };
    assert_eq!(told.get("result"), Some(&Json::Null));
    let note = object1("method", text_of("window/logMessage"));
    assert_eq!(client.receive(message(note)), Reaction::Ignore);
}

#[test]
fn progress_is_told() {
    let mut client = client();
    let mut progress = |value: Json| {
        let params = object2("token", text_of("t"), "value", value);
        let value = object2("method", text_of("$/progress"), "params", params);
        client.receive(Message { value, error_text: None, token_text: Some("\"t\"".to_string()) })
    };
    let told = |active: bool, message: &str| {
        Reaction::Tell(LspEvent::Progress {
            token: "\"t\"".to_string(),
            active,
            message: message.to_string(),
        })
    };
    let begin = object2("kind", text_of("begin"), "title", text_of("Indexing"));
    assert_eq!(progress(begin), told(true, "Indexing"));
    let report = object2("kind", text_of("report"), "message", text_of("1/2"));
    assert_eq!(progress(report), told(true, "1/2"));
    assert_eq!(progress(object1("kind", text_of("end"))), told(false, "end"));
    assert_eq!(progress(Json::Null), Reaction::Ignore);
}

#[test]
fn headers_are_read_back() {
    let written = message_header(123);
    assert_eq!(written, "Content-Length: 123\r\n\r\n");
    let mut header = Header::new();
    let lines: Vec<&str> = written.split_inclusive('\n').collect();
    assert_eq!(header.read_line(lines[0]), Ok(None));
    assert_eq!(header.read_line("Content-Type: x\r\n"), Ok(None));
    assert_eq!(header.read_line(lines[1]), Ok(Some(123)));
    assert_eq!(Header::new().read_line("\r\n"), Err(LspError::MissingLength));
    assert_eq!(
        Header::new().read_line("Content-Length: x\n"),
        Err(LspError::InvalidLength("x".to_string()))
    );
    assert_eq!(LspError::MissingLength.message(), "LSP message missing Content-Length");
}

#[test]
fn waiting_ends_with_ready_or_an_error() {
    assert_eq!(wait_for_ready(Waited::Event(LspEvent::Ready)), Ok(true));
    let progress = LspEvent::Progress {
        token: String::new(),
        active: true,
        message: String::new(),
    };
    assert_eq!(wait_for_ready(Waited::Event(progress)), Ok(false));
    assert_eq!(
        wait_for_ready(Waited::Event(LspEvent::Error("x".to_string()))),
        Err("x".to_string())
    );
    assert_eq!(
        wait_for_ready(Waited::TimeOver),
        Err("rust-analyzer did not initialize before timeout".to_string())
    );
    assert_eq!(
        wait_for_ready(Waited::Closed("gone".to_string())),
        Err("rust-analyzer did not initialize: gone".to_string())
    );
}

#[test]
fn frames_are_read_back_in_turn() {
    let first = b"a\nb\r\n\r\nContent-Length: 3".to_vec();
    let second = vec![0xff, 10, 0];
    let mut stream = frame(&first);
    assert!(stream.starts_with(b"Content-Length: 24\r\n\r\na\nb"));
    stream.extend(frame(&second));
    for n in 0..frame(&first).len() {
        assert_eq!(read_message(&stream[..n].to_vec(), false), Taken::More, "{n}");
    }
    let Taken::Message { body, used } = read_message(&stream, true) else {
        panic!("no message");
    };
    assert_eq!(body, first);
    stream.drain(..used);
    let Taken::Message { body, used } = read_message(&stream, false) else {
        panic!("no message");
    };
    assert_eq!(body, second);
    stream.drain(..used);
    assert_eq!(read_message(&stream, true), Taken::Closed);
    assert_eq!(read_message(&stream, false), Taken::More);
}

#[test]
fn broken_frames_are_told() {
    let read = |bytes: &[u8]| read_message(&bytes.to_vec(), true);
    assert_eq!(read(b"\r\n"), Taken::Fault(LspError::MissingLength));
    assert_eq!(read(b"X: 1\r\nContent-Le"), Taken::Closed);
    assert_eq!(read(b"X: \xff\n"), Taken::Fault(LspError::NotText));
    assert_eq!(read(b"Content-Length: 5\n\nabc"), Taken::Fault(LspError::CutOff));
    let body = Taken::Message { body: b"ab".to_vec(), used: 26 };
    assert_eq!(read(b"X: 1\nContent-Length:2\n\r\nabc"), body);
    let told = |bytes: &[u8]| match read_message(&bytes.to_vec(), false) {
        Taken::Fault(error) => error.message(),
        taken => panic!("{taken:?}"),
    };
    assert_eq!(told(b"Content-Length: \n"), "cannot parse integer from empty string");
    assert_eq!(told(b"Content-Length: +\n"), "invalid digit found in string");
    assert_eq!(told(b"Content-Length: 1x\n"), "invalid digit found in string");
    let large = "number too large to fit in target type";
    assert_eq!(told(b"Content-Length: 99999999999999999999\n"), large);
    assert_eq!(told(b"Content-Length: 99999999999999999999x\n"), large);
    for text in ["", "+", "-1", "1x", "99999999999999999999", "99999999999999999999x", "+x"] {
        let header = format!("Content-Length:{text}\n");
        assert_eq!(told(header.as_bytes()), text.parse::<usize>().unwrap_err().to_string());
    }
}

#[test]
fn paths_are_kept_as_written_below_the_root() {
    for (file, root) in [
        ("/w/a//b.rs", "/w"),
        ("/w/./a/./b.rs", "/w/"),
        ("//w//a/", "/w"),
        ("/w/a/.", "/w"),
        ("/w", "/w"),
        ("/w/", "/w"),
        ("/a//b", "/"),
        ("/", "/"),
        ("./a/b", "."),
        ("./a//b", ""),
        ("a/b/", ""),
        ("./.", ""),
        ("", ""),
        ("/wx/a", "/w"),
        ("w/a", "/w"),
    ] {
        let expected = match std::path::Path::new(file).strip_prefix(root) {
            Ok(rest) => rest.to_str().unwrap(),
            Err(_) => file,
        };
        assert_eq!(relative_file(file, root), expected, "{file} {root}");
    }
}

#[test]
fn only_what_is_read_has_to_be_countable() {
    let far = Position { line: u32::MAX, character: u32::MAX };
    let range = Range { start: Position { line: 4, character: 7 }, end: far };
    assert!(range.start.is_countable() && !range.is_countable());
    let place = Location { uri: "file:///x/a.rs".to_string(), range };
    let hits = parse_locations(vec![place], &FilePath::of_text("/w")).unwrap();
    assert_eq!((hits[0].line, hits[0].column), (5, 8));
}

#[test]
fn deadlines_run_out() {
    let deadline = Deadline::after(5, PATIENCE);
    assert_eq!(deadline.rest(5), Some(20000));
    assert_eq!(deadline.rest(20004), Some(1));
    assert_eq!(deadline.rest(20005), None);
    assert_eq!(Deadline::after(u64::MAX, 1).rest(u64::MAX - 1), Some(1));
}

#[test]
fn paths_that_are_no_text_are_kept() {
    let uri = "file:///work/demo/a%FFb.rs";
    let path = uri_to_path(uri).unwrap();
    assert_eq!(path.bytes(), b"/work/demo/a\xFFb.rs".to_vec());
    assert_eq!(path.text(), "/work/demo/a\u{FFFD}b.rs");
    assert_eq!(path.to_text(), None);
    assert_ne!(path, uri_to_path("file:///work/demo/a%FEb.rs").unwrap());

    let hits = parse_locations(vec![location(uri)], &FilePath::of_text("/work/demo")).unwrap();
    assert_eq!(hits[0].file.bytes(), b"a\xFFb.rs".to_vec());
    let mut client = client();
    let mut asked = symbol("x");
    asked.file = FilePath::of_bytes(b"a\xFFb.rs");
    let request = client.incoming_calls(&asked, "k".to_string());
    let message = format!("{:?}", request.unwrap().message);
    assert!(message.contains(uri), "{message}");

    let root = FilePath::of_bytes(b"/w\xC3");
    assert_eq!(path_to_uri(&root).unwrap(), "file:///w%C3/");
    assert_eq!(
        path_to_uri(&FilePath::of_bytes(b"w\xC3")),
        Err(LspError::NoUri("w\u{FFFD}".to_string()))
    );
    let message = format!("{:?}", LspClient::new(root).initialize(1).unwrap());
    assert!(message.contains("\"workspace\""), "{message}");
}

#[test]
fn paths_show_the_text_that_wrote_them() {
    for text in ["", "/", "a/b.rs", "/caf\u{e9}/\u{4e16}\u{754c}.rs", "./x//y/"] {
        let path = FilePath::of_text(text);
        assert_eq!(path.text(), text);
        assert_eq!(path.to_text().unwrap(), text);
        assert_eq!(path.bytes(), text.as_bytes());
        assert_eq!(path.is_absolute(), std::path::Path::new(text).is_absolute());
    }
    let root = FilePath::of_text("/caf\u{e9}");
    let file = FilePath::of_text("/caf\u{e9}/\u{4e16}.rs");
    assert_eq!(file.relative_to(&root), FilePath::of_text("\u{4e16}.rs"));
    assert_eq!(root.join(&FilePath::of_text("\u{4e16}.rs")), file);
    assert_eq!(file.file_name().unwrap().text(), "\u{4e16}.rs");
    assert_eq!(FilePath::of_text("/a/..").file_name(), None);
}
