//! The client of the language server.

use std::collections::HashMap;

use vstd::prelude::*;

use crate::json::{list1, list_of, object1, object2, object3, object_of, text_of, Json};
#[allow(unused_imports)]
use crate::json::{fields_view, values, Value};
use crate::file_path::FilePath;
#[allow(unused_imports)]
use crate::file_path::{exact_text, narrow, shown, starts_at_root, wide};
#[allow(unused_imports)]
use crate::paths::{file_name, is_absolute, joined, relative};
#[allow(unused_imports)]
use crate::text::{
    decimal, has_prefix, is_digit, lemma_decimal, number_fault, option_view, trim, trim_end,
    trim_start, unsigned, unsigned_digits,
};
use crate::text::{
    chars_of, concat2, concat3, decimal_of, number_fault_of, parse_unsigned, same, string_of,
    strip_prefix, trim_of,
};

pub mod frame;
pub mod laws;

verus! {

broadcast use vstd::std_specs::hash::group_hash_axioms;

// ---------------------------------------------------------------------------
// Symbols and places
// ---------------------------------------------------------------------------

/// What a symbol is.
#[derive(Clone, Copy, Debug, PartialEq, Eq, Structural)]
pub enum SymbolKind {
    File,
    Module,
    Namespace,
    Package,
    Class,
    Method,
    Property,
    Field,
    Constructor,
    Enum,
    Interface,
    Function,
    Variable,
    Constant,
    String,
    Number,
    Boolean,
    Array,
    Object,
    Key,
    Null,
    EnumMember,
    Struct,
    Event,
    Operator,
    TypeParameter,
    Unknown,
}

/// The kind with a number of the protocol.
pub open spec fn kind_of(value: int) -> SymbolKind {
    if value == 1 {
        SymbolKind::File
    } else if value == 2 {
        SymbolKind::Module
    } else if value == 3 {
        SymbolKind::Namespace
    } else if value == 4 {
        SymbolKind::Package
    } else if value == 5 {
        SymbolKind::Class
    } else if value == 6 {
        SymbolKind::Method
    } else if value == 7 {
        SymbolKind::Property
    } else if value == 8 {
        SymbolKind::Field
    } else if value == 9 {
        SymbolKind::Constructor
    } else if value == 10 {
        SymbolKind::Enum
    } else if value == 11 {
        SymbolKind::Interface
    } else if value == 12 {
        SymbolKind::Function
    } else if value == 13 {
        SymbolKind::Variable
    } else if value == 14 {
        SymbolKind::Constant
    } else if value == 15 {
        SymbolKind::String
    } else if value == 16 {
        SymbolKind::Number
    } else if value == 17 {
        SymbolKind::Boolean
    } else if value == 18 {
        SymbolKind::Array
    } else if value == 19 {
        SymbolKind::Object
    } else if value == 20 {
        SymbolKind::Key
    } else if value == 21 {
        SymbolKind::Null
    } else if value == 22 {
        SymbolKind::EnumMember
    } else if value == 23 {
        SymbolKind::Struct
    } else if value == 24 {
        SymbolKind::Event
    } else if value == 25 {
        SymbolKind::Operator
    } else if value == 26 {
        SymbolKind::TypeParameter
    } else {
        SymbolKind::Unknown
    }
}

impl SymbolKind {
    /// The kind with a number of the protocol.
    pub fn from_u64(value: u64) -> (r: SymbolKind)
        ensures
            r == kind_of(value as int),
    {
        match value {
            1 => SymbolKind::File,
            2 => SymbolKind::Module,
            3 => SymbolKind::Namespace,
            4 => SymbolKind::Package,
            5 => SymbolKind::Class,
            6 => SymbolKind::Method,
            7 => SymbolKind::Property,
            8 => SymbolKind::Field,
            9 => SymbolKind::Constructor,
            10 => SymbolKind::Enum,
            11 => SymbolKind::Interface,
            12 => SymbolKind::Function,
            13 => SymbolKind::Variable,
            14 => SymbolKind::Constant,
            15 => SymbolKind::String,
            16 => SymbolKind::Number,
            17 => SymbolKind::Boolean,
            18 => SymbolKind::Array,
            19 => SymbolKind::Object,
            20 => SymbolKind::Key,
            21 => SymbolKind::Null,
            22 => SymbolKind::EnumMember,
            23 => SymbolKind::Struct,
            24 => SymbolKind::Event,
            25 => SymbolKind::Operator,
            26 => SymbolKind::TypeParameter,
            _ => SymbolKind::Unknown,
        }
    }

    /// The name of the kind.
    pub open spec fn name(self) -> Seq<char> {
        match self {
            SymbolKind::File => "File"@,
            SymbolKind::Module => "Module"@,
            SymbolKind::Namespace => "Namespace"@,
            SymbolKind::Package => "Package"@,
            SymbolKind::Class => "Class"@,
            SymbolKind::Method => "Method"@,
            SymbolKind::Property => "Property"@,
            SymbolKind::Field => "Field"@,
            SymbolKind::Constructor => "Constructor"@,
            SymbolKind::Enum => "Enum"@,
            SymbolKind::Interface => "Interface"@,
            SymbolKind::Function => "Function"@,
            SymbolKind::Variable => "Variable"@,
            SymbolKind::Constant => "Constant"@,
            SymbolKind::String => "String"@,
            SymbolKind::Number => "Number"@,
            SymbolKind::Boolean => "Boolean"@,
            SymbolKind::Array => "Array"@,
            SymbolKind::Object => "Object"@,
            SymbolKind::Key => "Key"@,
            SymbolKind::Null => "Null"@,
            SymbolKind::EnumMember => "EnumMember"@,
            SymbolKind::Struct => "Struct"@,
            SymbolKind::Event => "Event"@,
            SymbolKind::Operator => "Operator"@,
            SymbolKind::TypeParameter => "TypeParameter"@,
            SymbolKind::Unknown => "Unknown"@,
        }
    }

    /// The name of the kind.
    pub fn label(self) -> (r: &'static str)
        ensures
            r@ == self.name(),
    {
        match self {
            SymbolKind::File => "File",
            SymbolKind::Module => "Module",
            SymbolKind::Namespace => "Namespace",
            SymbolKind::Package => "Package",
            SymbolKind::Class => "Class",
            SymbolKind::Method => "Method",
            SymbolKind::Property => "Property",
            SymbolKind::Field => "Field",
            SymbolKind::Constructor => "Constructor",
            SymbolKind::Enum => "Enum",
            SymbolKind::Interface => "Interface",
            SymbolKind::Function => "Function",
            SymbolKind::Variable => "Variable",
            SymbolKind::Constant => "Constant",
            SymbolKind::String => "String",
            SymbolKind::Number => "Number",
            SymbolKind::Boolean => "Boolean",
            SymbolKind::Array => "Array",
            SymbolKind::Object => "Object",
            SymbolKind::Key => "Key",
            SymbolKind::Null => "Null",
            SymbolKind::EnumMember => "EnumMember",
            SymbolKind::Struct => "Struct",
            SymbolKind::Event => "Event",
            SymbolKind::Operator => "Operator",
            SymbolKind::TypeParameter => "TypeParameter",
            SymbolKind::Unknown => "Unknown",
        }
    }

    /// Whether symbols of this kind hold much of a program.
    pub fn is_broad_container(self) -> (r: bool)
        ensures
            r == (self is File || self is Module || self is Namespace || self is Package),
    {
        match self {
            SymbolKind::File | SymbolKind::Module | SymbolKind::Namespace | SymbolKind::Package => {
                true
            },
            _ => false,
        }
    }
}

/// A symbol of the workspace.
#[derive(Debug, PartialEq, Eq)]
pub struct Symbol {
    pub name: String,
    pub kind: SymbolKind,
    pub file: FilePath,
    pub line: u32,
    pub end_line: u32,
    pub column: u32,
    pub container_name: Option<String>,
}

/// A place in the workspace.
#[derive(Debug, PartialEq, Eq)]
pub struct LocationHit {
    pub name: Option<String>,
    pub kind: Option<SymbolKind>,
    pub file: FilePath,
    pub line: u32,
    pub column: u32,
    pub detail: Option<String>,
}

/// A symbol of the workspace.
#[verifier::ext_equal]
pub struct SymbolView {
    pub name: Seq<char>,
    pub kind: SymbolKind,
    pub file: Seq<char>,
    pub line: u32,
    pub end_line: u32,
    pub column: u32,
    pub container_name: Option<Seq<char>>,
}

/// A place in the workspace.
#[verifier::ext_equal]
pub struct HitView {
    pub name: Option<Seq<char>>,
    pub kind: Option<SymbolKind>,
    pub file: Seq<char>,
    pub line: u32,
    pub column: u32,
    pub detail: Option<Seq<char>>,
}

impl View for Symbol {
    type V = SymbolView;

    open spec fn view(&self) -> SymbolView {
        SymbolView {
            name: self.name@,
            kind: self.kind,
            file: self.file@,
            line: self.line,
            end_line: self.end_line,
            column: self.column,
            container_name: option_view(self.container_name),
        }
    }
}

impl View for LocationHit {
    type V = HitView;

    open spec fn view(&self) -> HitView {
        HitView {
            name: option_view(self.name),
            kind: self.kind,
            file: self.file@,
            line: self.line,
            column: self.column,
            detail: option_view(self.detail),
        }
    }
}

/// Symbols as mathematical objects.
pub open spec fn symbol_views(list: Seq<Symbol>) -> Seq<SymbolView> {
    list.map_values(|symbol: Symbol| symbol@)
}

/// Places as mathematical objects.
pub open spec fn hit_views(list: Seq<LocationHit>) -> Seq<HitView> {
    list.map_values(|hit: LocationHit| hit@)
}

/// A copy of a text that may be missing.
pub(crate) fn copy_option(text: &Option<String>) -> (r: Option<String>)
    ensures
        option_view(r) == option_view(*text),
{
    match text {
        Some(text) => Some(text.clone()),
        None => None,
    }
}

impl Symbol {
    /// A copy.
    pub fn copy(&self) -> (r: Symbol)
        ensures
            r@ == self@,
    {
        Symbol {
            name: self.name.clone(),
            kind: self.kind,
            file: self.file.copy(),
            line: self.line,
            end_line: self.end_line,
            column: self.column,
            container_name: copy_option(&self.container_name),
        }
    }
}

impl LocationHit {
    /// A copy.
    pub fn copy(&self) -> (r: LocationHit)
        ensures
            r@ == self@,
    {
        LocationHit {
            name: copy_option(&self.name),
            kind: self.kind,
            file: self.file.copy(),
            line: self.line,
            column: self.column,
            detail: copy_option(&self.detail),
        }
    }
}

/// Whether the callers of a symbol are sought, or what it calls.
#[derive(Clone, Copy, Debug, PartialEq, Eq, Structural)]
pub enum CallDirection {
    Incoming,
    Outgoing,
}

/// What the client has to tell.
#[derive(Debug, PartialEq, Eq)]
pub enum LspEvent {
    Symbols { request_id: i64, query: String, symbols: Vec<Symbol> },
    References { key: String, hits: Vec<LocationHit> },
    CallHierarchy { key: String, direction: CallDirection, hits: Vec<LocationHit> },
    SideError { key: String, message: String },
    Error(String),
    Progress { token: String, active: bool, message: String },
    Ready,
}

/// What the client has to tell.
pub enum EventView {
    Symbols { request_id: i64, query: Seq<char>, symbols: Seq<SymbolView> },
    References { key: Seq<char>, hits: Seq<HitView> },
    CallHierarchy { key: Seq<char>, direction: CallDirection, hits: Seq<HitView> },
    SideError { key: Seq<char>, message: Seq<char> },
    Error(Seq<char>),
    Progress { token: Seq<char>, active: bool, message: Seq<char> },
    Ready,
}

impl View for LspEvent {
    type V = EventView;

    open spec fn view(&self) -> EventView {
        match self {
            LspEvent::Symbols { request_id, query, symbols } => EventView::Symbols {
                request_id: *request_id,
                query: query@,
                symbols: symbol_views(symbols@),
            },
            LspEvent::References { key, hits } => EventView::References {
                key: key@,
                hits: hit_views(hits@),
            },
            LspEvent::CallHierarchy { key, direction, hits } => EventView::CallHierarchy {
                key: key@,
                direction: *direction,
                hits: hit_views(hits@),
            },
            LspEvent::SideError { key, message } => EventView::SideError {
                key: key@,
                message: message@,
            },
            LspEvent::Error(message) => EventView::Error(message@),
            LspEvent::Progress { token, active, message } => EventView::Progress {
                token: token@,
                active: *active,
                message: message@,
            },
            LspEvent::Ready => EventView::Ready,
        }
    }
}

// ---------------------------------------------------------------------------
// Faults
// ---------------------------------------------------------------------------

/// What can go wrong with a message.
#[derive(Debug, PartialEq, Eq)]
pub enum LspError {
    /// The path has no URI.
    NoUri(String),
    /// This is no URI.
    InvalidUri(String),
    /// The URI names no file.
    NotAFile(String),
    /// A message has no length.
    MissingLength,
    /// This is no length.
    InvalidLength(String),
    /// A header is no text.
    NotText,
    /// The server ended within a message.
    CutOff,
}

/// What can go wrong with a message.
pub enum Fault {
    NoUri(Seq<char>),
    InvalidUri(Seq<char>),
    NotAFile(Seq<char>),
    MissingLength,
    InvalidLength(Seq<char>),
    NotText,
    CutOff,
}

impl View for LspError {
    type V = Fault;

    open spec fn view(&self) -> Fault {
        match self {
            LspError::NoUri(path) => Fault::NoUri(path@),
            LspError::InvalidUri(uri) => Fault::InvalidUri(uri@),
            LspError::NotAFile(uri) => Fault::NotAFile(uri@),
            LspError::MissingLength => Fault::MissingLength,
            LspError::InvalidLength(text) => Fault::InvalidLength(text@),
            LspError::NotText => Fault::NotText,
            LspError::CutOff => Fault::CutOff,
        }
    }
}

impl Fault {
    /// The fault as told to the user.
    pub open spec fn text(self) -> Seq<char> {
        match self {
            Fault::NoUri(path) => "failed to convert path to file URI: "@ + path,
            Fault::InvalidUri(uri) => "invalid URI from language server: "@ + uri,
            Fault::NotAFile(uri) => "non-file URI from language server: "@ + uri,
            Fault::MissingLength => "LSP message missing Content-Length"@,
            Fault::InvalidLength(text) => number_fault(text, usize::MAX as nat),
            Fault::NotText => "stream did not contain valid UTF-8"@,
            Fault::CutOff => "failed to fill whole buffer"@,
        }
    }
}

impl LspError {
    /// The fault as told to the user.
    pub fn message(&self) -> (r: String)
        ensures
            r@ == self@.text(),
    {
        match self {
            LspError::NoUri(path) => concat2("failed to convert path to file URI: ", path.as_str()),
            LspError::InvalidUri(uri) => concat2("invalid URI from language server: ", uri.as_str()),
            LspError::NotAFile(uri) => concat2("non-file URI from language server: ", uri.as_str()),
            LspError::MissingLength => "LSP message missing Content-Length".to_string(),
            LspError::InvalidLength(text) => {
                number_fault_of(text.as_str(), usize::MAX as u64).to_string()
            },
            LspError::NotText => "stream did not contain valid UTF-8".to_string(),
            LspError::CutOff => "failed to fill whole buffer".to_string(),
        }
    }
}

// ---------------------------------------------------------------------------
// Paths and URIs
// ---------------------------------------------------------------------------

/// The URI of the file at an absolute path.
pub uninterp spec fn file_uri(path: Seq<u8>) -> Option<Seq<char>>;

/// Whether a text is a URI.
pub uninterp spec fn is_uri(text: Seq<char>) -> bool;

/// The path of the file that a URI names.
pub uninterp spec fn uri_file(uri: Seq<char>) -> Option<Seq<u8>>;

/// `url::Url::from_file_path`, with the URI as a text. It fails exactly on paths
/// that do not start at the root. Paths are those of Unix, and their bytes are handed
/// over in the form that serde gives to a string of the operating system.
#[verifier::external_body]
fn uri_of_file(path: &Vec<u8>) -> (r: Option<String>)
    ensures
        option_view(r) == file_uri(path@),
        r is Some <==> starts_at_root(path@),
{
    let mut file = std::path::PathBuf::new();
    let form = format!("{{\"Unix\":{path:?}}}");
    *file.as_mut_os_string() = serde_json::from_str(&form).ok()?;
    url::Url::from_file_path(file).ok().map(|uri| uri.to_string())
}

/// `url::Url::from_directory_path`, with the URI as a text: the URI of the path
/// as of a file, with a slash at its end. It fails exactly on paths that do not
/// start at the root. Paths are those of Unix, and their bytes are handed over in the
/// form that serde gives to a string of the operating system.
#[verifier::external_body]
fn uri_of_directory(path: &Vec<u8>) -> (r: Option<String>)
    ensures
        option_view(r) == directory_uri(path@),
        r is Some <==> starts_at_root(path@),
{
    let mut file = std::path::PathBuf::new();
    let form = format!("{{\"Unix\":{path:?}}}");
    *file.as_mut_os_string() = serde_json::from_str(&form).ok()?;
    url::Url::from_directory_path(file).ok().map(|uri| uri.to_string())
}

/// `url::Url::parse` succeeds exactly on the texts that are URIs.
#[verifier::external_body]
fn uri_is_valid(text: &str) -> (r: bool)
    ensures
        r == is_uri(text@),
{
    url::Url::parse(text).is_ok()
}

/// `url::Url::to_file_path`, for the URI that a text is, with the path as its bytes.
/// There is none where the text is no URI.
#[verifier::external_body]
fn file_of_uri(text: &str) -> (r: Option<Vec<u8>>)
    ensures
        bytes_view(r) == uri_file(text@),
        r is Some ==> is_uri(text@),
{
    let path = url::Url::parse(text).ok()?.to_file_path().ok()?;
    Some(path.into_os_string().into_encoded_bytes())
}

/// Bytes that may be missing.
pub open spec fn bytes_view(bytes: Option<Vec<u8>>) -> Option<Seq<u8>> {
    match bytes {
        Some(bytes) => Some(bytes@),
        None => None,
    }
}

/// The URI of a directory: that of its path, with a slash at its end.
pub open spec fn directory_uri(path: Seq<u8>) -> Option<Seq<char>> {
    match file_uri(path) {
        Some(uri) => if uri.len() > 0 && uri.last() == '/' {
            Some(uri)
        } else {
            Some(uri.push('/'))
        },
        None => None,
    }
}

/// The URI of a directory.
pub open spec fn uri_for(path: Seq<char>) -> Result<Seq<char>, Fault> {
    match directory_uri(narrow(path)) {
        Some(uri) => Ok(uri),
        None => Err(Fault::NoUri(shown(path))),
    }
}

/// The path that a URI names.
pub open spec fn path_for(uri: Seq<char>) -> Result<Seq<char>, Fault> {
    if !is_uri(uri) {
        Err(Fault::InvalidUri(uri))
    } else {
        match uri_file(uri) {
            Some(path) => Ok(wide(path)),
            None => Err(Fault::NotAFile(uri)),
        }
    }
}

/// A result as texts.
pub open spec fn text_result(r: Result<String, LspError>) -> Result<Seq<char>, Fault> {
    match r {
        Ok(text) => Ok(text@),
        Err(error) => Err(error@),
    }
}

/// A result as paths.
pub open spec fn path_result(r: Result<FilePath, LspError>) -> Result<Seq<char>, Fault> {
    match r {
        Ok(path) => Ok(path@),
        Err(error) => Err(error@),
    }
}

/// The URI of a directory.
pub fn path_to_uri(path: &FilePath) -> (r: Result<String, LspError>)
    ensures
        text_result(r) == uri_for(path@),
        r is Ok <==> is_absolute(path@),
{
    match uri_of_directory(&path.bytes()) {
        Some(uri) => Ok(uri),
        None => Err(LspError::NoUri(path.text())),
    }
}

/// The path that a URI names.
pub fn uri_to_path(uri: &str) -> (r: Result<FilePath, LspError>)
    ensures
        path_result(r) == path_for(uri@),
{
    if !uri_is_valid(uri) {
        return Err(LspError::InvalidUri(uri.to_string()));
    }
    path_of_uri(uri, file_of_uri(uri))
}

/// The path that a valid URI names, from the bytes that were found for it.
pub fn path_of_uri(uri: &str, found: Option<Vec<u8>>) -> (r: Result<FilePath, LspError>)
    ensures
        path_result(r) == (match bytes_view(found) {
            Some(path) => Ok(wide(path)),
            None => Err(Fault::NotAFile(uri@)),
        }),
{
    match found {
        Some(path) => Ok(FilePath::of_bytes(path.as_slice())),
        None => Err(LspError::NotAFile(uri.to_string())),
    }
}

// ---------------------------------------------------------------------------
// What the server answers
// ---------------------------------------------------------------------------

/// A line and a column, counted from zero.
#[derive(Clone, Copy, Debug, PartialEq, Eq, Structural)]
pub struct Position {
    pub line: u32,
    pub character: u32,
}

/// A part of a text.
#[derive(Clone, Copy, Debug, PartialEq, Eq, Structural)]
pub struct Range {
    pub start: Position,
    pub end: Position,
}

impl Position {
    /// The line and the column can be counted from one.
    pub open spec fn countable(self) -> bool {
        self.line < u32::MAX && self.character < u32::MAX
    }

    /// Whether the line and the column can be counted from one.
    pub fn is_countable(self) -> (r: bool)
        ensures
            r == self.countable(),
    {
        self.line < u32::MAX && self.character < u32::MAX
    }
}

impl Range {
    /// The place where the part begins and the line where it ends can be counted from
    /// one.
    pub open spec fn countable(self) -> bool {
        self.start.countable() && self.end.line < u32::MAX
    }

    /// Whether the place where the part begins and the line where it ends can be
    /// counted from one.
    pub fn is_countable(self) -> (r: bool)
        ensures
            r == self.countable(),
    {
        self.start.is_countable() && self.end.line < u32::MAX
    }
}

/// A place in a file.
#[derive(Debug)]
pub struct Location {
    pub uri: String,
    pub range: Range,
}

/// A symbol and its place.
#[derive(Debug)]
pub struct WorkspaceSymbolInformation {
    pub name: String,
    pub kind: u64,
    pub location: Location,
    pub container_name: Option<String>,
}

/// A symbol whose place may be missing.
#[derive(Debug)]
pub struct PartialWorkspaceSymbol {
    pub name: String,
    pub kind: u64,
    pub location: Option<Location>,
    pub container_name: Option<String>,
}

/// A symbol as the server tells of it.
#[derive(Debug)]
pub enum WorkspaceSymbol {
    Symbol(WorkspaceSymbolInformation),
    Partial(PartialWorkspaceSymbol),
}

/// A function that calls, or is called.
#[derive(Debug)]
pub struct CallHierarchyItem {
    pub name: String,
    pub kind: u64,
    pub uri: String,
    pub selection_range: Range,
    pub detail: Option<String>,
}

/// A place as seen from the root of the workspace, with lines and columns counted
/// from one.
pub open spec fn hit_at(
    uri: Seq<char>,
    range: Range,
    root: Seq<char>,
    name: Option<Seq<char>>,
    kind: Option<SymbolKind>,
    detail: Option<Seq<char>>,
) -> Result<HitView, Fault> {
    match path_for(uri) {
        Ok(path) => Ok(
            HitView {
                name,
                kind,
                file: relative(path, root),
                line: (range.start.line + 1) as u32,
                column: (range.start.character + 1) as u32,
                detail,
            },
        ),
        Err(fault) => Err(fault),
    }
}

impl WorkspaceSymbolInformation {
    /// The symbol, as seen from the root of the workspace.
    pub open spec fn symbol(self, root: Seq<char>) -> Result<SymbolView, Fault> {
        match path_for(self.location.uri@) {
            Ok(path) => Ok(
                SymbolView {
                    name: self.name@,
                    kind: kind_of(self.kind as int),
                    file: relative(path, root),
                    line: (self.location.range.start.line + 1) as u32,
                    end_line: (self.location.range.end.line + 1) as u32,
                    column: (self.location.range.start.character + 1) as u32,
                    container_name: option_view(self.container_name),
                },
            ),
            Err(fault) => Err(fault),
        }
    }

    /// The symbol, as seen from the root of the workspace.
    pub fn into_symbol(self, root: &FilePath) -> (r: Result<Symbol, LspError>)
        requires
            self.location.range.countable(),
        ensures
            match r {
                Ok(symbol) => self.symbol(root@) == Ok::<SymbolView, Fault>(symbol@),
                Err(error) => self.symbol(root@) == Err::<SymbolView, Fault>(error@),
            },
    {
        let path = match uri_to_path(self.location.uri.as_str()) {
            Ok(path) => path,
            Err(error) => {
                return Err(error);
            },
        };
        let file = path.relative_to(root);
        Ok(
            Symbol {
                name: self.name,
                kind: SymbolKind::from_u64(self.kind),
                file,
                line: self.location.range.start.line + 1,
                end_line: self.location.range.end.line + 1,
                column: self.location.range.start.character + 1,
                container_name: self.container_name,
            },
        )
    }
}

impl WorkspaceSymbol {
    /// The lines and columns of the place, if there is one, can be counted from one.
    pub open spec fn countable(self) -> bool {
        match self {
            WorkspaceSymbol::Symbol(symbol) => symbol.location.range.countable(),
            WorkspaceSymbol::Partial(symbol) => match symbol.location {
                Some(location) => location.range.countable(),
                None => true,
            },
        }
    }

    /// Whether the lines and columns of the place can be counted from one.
    pub fn is_countable(&self) -> (r: bool)
        ensures
            r == self.countable(),
    {
        match self {
            WorkspaceSymbol::Symbol(symbol) => symbol.location.range.is_countable(),
            WorkspaceSymbol::Partial(symbol) => match &symbol.location {
                Some(location) => location.range.is_countable(),
                None => true,
            },
        }
    }

    /// The symbol, as seen from the root of the workspace; `None` where it has no
    /// place.
    pub open spec fn symbol(self, root: Seq<char>) -> Option<Result<SymbolView, Fault>> {
        match self {
            WorkspaceSymbol::Symbol(symbol) => Some(symbol.symbol(root)),
            WorkspaceSymbol::Partial(symbol) => match symbol.location {
                Some(location) => Some(
                    WorkspaceSymbolInformation {
                        name: symbol.name,
                        kind: symbol.kind,
                        location,
                        container_name: symbol.container_name,
                    }.symbol(root),
                ),
                None => None,
            },
        }
    }

    /// The symbol, as seen from the root of the workspace.
    pub fn into_symbol(self, root: &FilePath) -> (r: Option<Result<Symbol, LspError>>)
        requires
            self.countable(),
        ensures
            match r {
                Some(Ok(symbol)) => self.symbol(root@) == Some(
                    Ok::<SymbolView, Fault>(symbol@),
                ),
                Some(Err(error)) => self.symbol(root@) == Some(
                    Err::<SymbolView, Fault>(error@),
                ),
                None => self.symbol(root@) is None,
            },
    {
        match self {
            WorkspaceSymbol::Symbol(symbol) => Some(symbol.into_symbol(root)),
            WorkspaceSymbol::Partial(symbol) => match symbol.location {
                Some(location) => Some(
                    WorkspaceSymbolInformation {
                        name: symbol.name,
                        kind: symbol.kind,
                        location,
                        container_name: symbol.container_name,
                    }.into_symbol(root),
                ),
                None => None,
            },
        }
    }
}

impl Location {
    /// The place, as seen from the root of the workspace.
    pub fn into_hit(
        self,
        root: &FilePath,
        name: Option<String>,
        kind: Option<SymbolKind>,
        detail: Option<String>,
    ) -> (r: Result<LocationHit, LspError>)
        requires
            self.range.start.countable(),
        ensures
            hit_result(r) == hit_at(
                self.uri@,
                self.range,
                root@,
                option_view(name),
                kind,
                option_view(detail),
            ),
    {
        let path = match uri_to_path(self.uri.as_str()) {
            Ok(path) => path,
            Err(error) => {
                return Err(error);
            },
        };
        let file = path.relative_to(root);
        Ok(
            LocationHit {
                name,
                kind,
                file,
                line: self.range.start.line + 1,
                column: self.range.start.character + 1,
                detail,
            },
        )
    }
}

/// A result as mathematical objects.
pub open spec fn hit_result(r: Result<LocationHit, LspError>) -> Result<HitView, Fault> {
    match r {
        Ok(hit) => Ok(hit@),
        Err(error) => Err(error@),
    }
}

impl CallHierarchyItem {
    /// The place, as seen from the root of the workspace.
    pub open spec fn hit(self, root: Seq<char>) -> Result<HitView, Fault> {
        hit_at(
            self.uri@,
            self.selection_range,
            root,
            Some(self.name@),
            Some(kind_of(self.kind as int)),
            option_view(self.detail),
        )
    }

    /// The place, as seen from the root of the workspace.
    pub fn into_hit(self, root: &FilePath) -> (r: Result<LocationHit, LspError>)
        requires
            self.selection_range.start.countable(),
        ensures
            hit_result(r) == self.hit(root@),
    {
        let location = Location { uri: self.uri, range: self.selection_range };
        let kind = SymbolKind::from_u64(self.kind);
        location.into_hit(root, Some(self.name), Some(kind), self.detail)
    }
}

/// The symbols of an answer, in order, without those that have no place; or the
/// first fault.
pub open spec fn symbols_of(list: Seq<WorkspaceSymbol>, root: Seq<char>) -> Result<
    Seq<SymbolView>,
    Fault,
>
    decreases list.len(),
{
    if list.len() == 0 {
        Ok(Seq::empty())
    } else {
        match symbols_of(list.drop_last(), root) {
            Err(fault) => Err(fault),
            Ok(before) => match list.last().symbol(root) {
                None => Ok(before),
                Some(Ok(symbol)) => Ok(before.push(symbol)),
                Some(Err(fault)) => Err(fault),
            },
        }
    }
}

/// The places of an answer, in order; or the first fault.
pub open spec fn locations_of(list: Seq<Location>, root: Seq<char>) -> Result<Seq<HitView>, Fault>
    decreases list.len(),
{
    if list.len() == 0 {
        Ok(Seq::empty())
    } else {
        match locations_of(list.drop_last(), root) {
            Err(fault) => Err(fault),
            Ok(before) => match hit_at(list.last().uri@, list.last().range, root, None, None, None) {
                Ok(hit) => Ok(before.push(hit)),
                Err(fault) => Err(fault),
            },
        }
    }
}

/// The callers or callees of an answer, in order; or the first fault.
pub open spec fn calls_of(list: Seq<CallHierarchyItem>, root: Seq<char>) -> Result<
    Seq<HitView>,
    Fault,
>
    decreases list.len(),
{
    if list.len() == 0 {
        Ok(Seq::empty())
    } else {
        match calls_of(list.drop_last(), root) {
            Err(fault) => Err(fault),
            Ok(before) => match list.last().hit(root) {
                Ok(hit) => Ok(before.push(hit)),
                Err(fault) => Err(fault),
            },
        }
    }
}

/// A fault among the first symbols is the fault of all.
proof fn lemma_symbols_fault(list: Seq<WorkspaceSymbol>, root: Seq<char>, n: int)
    requires
        0 <= n <= list.len(),
        symbols_of(list.take(n), root) is Err,
    ensures
        symbols_of(list, root) == symbols_of(list.take(n), root),
    decreases list.len() - n,
{
    if n == list.len() {
        assert(list.take(n) =~= list);
    } else {
        assert(list.take(n + 1).drop_last() =~= list.take(n));
        lemma_symbols_fault(list, root, n + 1);
    }
}

/// A fault among the first places is the fault of all.
proof fn lemma_locations_fault(list: Seq<Location>, root: Seq<char>, n: int)
    requires
        0 <= n <= list.len(),
        locations_of(list.take(n), root) is Err,
    ensures
        locations_of(list, root) == locations_of(list.take(n), root),
    decreases list.len() - n,
{
    if n == list.len() {
        assert(list.take(n) =~= list);
    } else {
        assert(list.take(n + 1).drop_last() =~= list.take(n));
        lemma_locations_fault(list, root, n + 1);
    }
}

/// A fault among the first calls is the fault of all.
proof fn lemma_calls_fault(list: Seq<CallHierarchyItem>, root: Seq<char>, n: int)
    requires
        0 <= n <= list.len(),
        calls_of(list.take(n), root) is Err,
    ensures
        calls_of(list, root) == calls_of(list.take(n), root),
    decreases list.len() - n,
{
    if n == list.len() {
        assert(list.take(n) =~= list);
    } else {
        assert(list.take(n + 1).drop_last() =~= list.take(n));
        lemma_calls_fault(list, root, n + 1);
    }
}

/// The symbols of an answer.
pub fn parse_symbols(list: Vec<WorkspaceSymbol>, root: &FilePath) -> (r: Result<
    Vec<Symbol>,
    LspError,
>)
    requires
        forall|i: int| 0 <= i < list@.len() ==> (#[trigger] list@[i]).countable(),
    ensures
        match r {
            Ok(symbols) => symbols_of(list@, root@) == Ok::<Seq<SymbolView>, Fault>(
                symbol_views(symbols@),
            ),
            Err(error) => symbols_of(list@, root@) == Err::<Seq<SymbolView>, Fault>(error@),
        },
{
    let ghost all = list@;
    let mut rest = list;
    let mut out: Vec<Symbol> = Vec::new();
    let ghost mut n: int = 0;
    assert(symbol_views(out@) =~= Seq::empty());
    while rest.len() > 0
        invariant
            0 <= n <= all.len(),
            all == list@,
            rest@ == all.skip(n),
            forall|i: int| 0 <= i < all.len() ==> (#[trigger] all[i]).countable(),
            symbols_of(all.take(n), root@) == Ok::<Seq<SymbolView>, Fault>(symbol_views(out@)),
        decreases rest@.len(),
    {
        assert(all.take(n + 1).drop_last() =~= all.take(n));
        assert(rest@[0] == all[n]);
        let ghost was = symbol_views(out@);
        let item = rest.remove(0);
        assert(rest@ =~= all.skip(n + 1));
        match item.into_symbol(root) {
            Some(Ok(symbol)) => {
                let ghost added = symbol@;
                out.push(symbol);
                assert(symbol_views(out@) =~= was.push(added));
            },
            Some(Err(error)) => {
                proof {
                    lemma_symbols_fault(all, root@, n + 1);
                }
                return Err(error);
            },
            None => {},
        }
        proof {
            n = n + 1;
        }
    }
    assert(all.take(n) =~= all);
    Ok(out)
}

/// The places of an answer.
pub fn parse_locations(list: Vec<Location>, root: &FilePath) -> (r: Result<
    Vec<LocationHit>,
    LspError,
>)
    requires
        forall|i: int| 0 <= i < list@.len() ==> (#[trigger] list@[i]).range.start.countable(),
    ensures
        match r {
            Ok(hits) => locations_of(list@, root@) == Ok::<Seq<HitView>, Fault>(hit_views(hits@)),
            Err(error) => locations_of(list@, root@) == Err::<Seq<HitView>, Fault>(error@),
        },
{
    let ghost all = list@;
    let mut rest = list;
    let mut out: Vec<LocationHit> = Vec::new();
    let ghost mut n: int = 0;
    assert(hit_views(out@) =~= Seq::empty());
    while rest.len() > 0
        invariant
            0 <= n <= all.len(),
            all == list@,
            rest@ == all.skip(n),
            forall|i: int| 0 <= i < all.len() ==> (#[trigger] all[i]).range.start.countable(),
            locations_of(all.take(n), root@) == Ok::<Seq<HitView>, Fault>(hit_views(out@)),
        decreases rest@.len(),
    {
        assert(all.take(n + 1).drop_last() =~= all.take(n));
        assert(rest@[0] == all[n]);
        let ghost was = hit_views(out@);
        let item = rest.remove(0);
        assert(rest@ =~= all.skip(n + 1));
        match item.into_hit(root, None, None, None) {
            Ok(hit) => {
                let ghost added = hit@;
                out.push(hit);
                assert(hit_views(out@) =~= was.push(added));
            },
            Err(error) => {
                proof {
                    lemma_locations_fault(all, root@, n + 1);
                }
                return Err(error);
            },
        }
        proof {
            n = n + 1;
        }
    }
    assert(all.take(n) =~= all);
    Ok(out)
}

/// The callers or callees of an answer.
pub fn parse_calls(list: Vec<CallHierarchyItem>, root: &FilePath) -> (r: Result<
    Vec<LocationHit>,
    LspError,
>)
    requires
        forall|i: int| 0 <= i < list@.len() ==> (#[trigger] list@[i]).selection_range.start.countable(),
    ensures
        match r {
            Ok(hits) => calls_of(list@, root@) == Ok::<Seq<HitView>, Fault>(hit_views(hits@)),
            Err(error) => calls_of(list@, root@) == Err::<Seq<HitView>, Fault>(error@),
        },
{
    let ghost all = list@;
    let mut rest = list;
    let mut out: Vec<LocationHit> = Vec::new();
    let ghost mut n: int = 0;
    assert(hit_views(out@) =~= Seq::empty());
    while rest.len() > 0
        invariant
            0 <= n <= all.len(),
            all == list@,
            rest@ == all.skip(n),
            forall|i: int| 0 <= i < all.len() ==> (#[trigger] all[i]).selection_range.start.countable(),
            calls_of(all.take(n), root@) == Ok::<Seq<HitView>, Fault>(hit_views(out@)),
        decreases rest@.len(),
    {
        assert(all.take(n + 1).drop_last() =~= all.take(n));
        assert(rest@[0] == all[n]);
        let ghost was = hit_views(out@);
        let item = rest.remove(0);
        assert(rest@ =~= all.skip(n + 1));
        match item.into_hit(root) {
            Ok(hit) => {
                let ghost added = hit@;
                out.push(hit);
                assert(hit_views(out@) =~= was.push(added));
            },
            Err(error) => {
                proof {
                    lemma_calls_fault(all, root@, n + 1);
                }
                return Err(error);
            },
        }
        proof {
            n = n + 1;
        }
    }
    assert(all.take(n) =~= all);
    Ok(out)
}

// ---------------------------------------------------------------------------
// Requests
// ---------------------------------------------------------------------------

/// A request that has not been answered.
#[derive(Debug, PartialEq, Eq)]
pub enum PendingRequest {
    WorkspaceSymbol { query: String },
    References { key: String },
    PrepareCallHierarchy { key: String, direction: CallDirection },
    IncomingCalls { key: String },
    OutgoingCalls { key: String },
}

/// A request that has not been answered.
pub enum Pending {
    WorkspaceSymbol { query: Seq<char> },
    References { key: Seq<char> },
    PrepareCallHierarchy { key: Seq<char>, direction: CallDirection },
    IncomingCalls { key: Seq<char> },
    OutgoingCalls { key: Seq<char> },
}

impl View for PendingRequest {
    type V = Pending;

    open spec fn view(&self) -> Pending {
        match self {
            PendingRequest::WorkspaceSymbol { query } => Pending::WorkspaceSymbol {
                query: query@,
            },
            PendingRequest::References { key } => Pending::References { key: key@ },
            PendingRequest::PrepareCallHierarchy { key, direction } => {
                Pending::PrepareCallHierarchy { key: key@, direction: *direction }
            },
            PendingRequest::IncomingCalls { key } => Pending::IncomingCalls { key: key@ },
            PendingRequest::OutgoingCalls { key } => Pending::OutgoingCalls { key: key@ },
        }
    }
}

/// What the client knows: the root of the workspace, the number of the next
/// request, and the requests that have not been answered.
pub struct LspClient {
    root: FilePath,
    next_id: i64,
    pending_requests: HashMap<i64, PendingRequest>,
}

/// What the client knows.
#[verifier::ext_equal]
pub struct ClientView {
    pub root: Seq<char>,
    pub next_id: i64,
    pub pending: Map<i64, Pending>,
}

impl View for LspClient {
    type V = ClientView;

    closed spec fn view(&self) -> ClientView {
        ClientView {
            root: self.root@,
            next_id: self.next_id,
            pending: self.pending_requests@.map_values(|p: PendingRequest| p@),
        }
    }
}

/// A request: its number, and the message.
#[derive(Debug, PartialEq, Eq)]
pub struct Request {
    pub id: i64,
    pub message: Json,
}

/// A message that asks for something.
pub open spec fn request_value(id: i64, method: Seq<char>, params: Value) -> Value {
    Value::Object(
        seq![
            ("jsonrpc"@, Value::Text("2.0"@)),
            ("id"@, Value::Integer(id as int)),
            ("method"@, Value::Text(method)),
            ("params"@, params),
        ],
    )
}

/// A message that only tells something.
pub open spec fn notification_value(method: Seq<char>, params: Value) -> Value {
    Value::Object(
        seq![
            ("jsonrpc"@, Value::Text("2.0"@)),
            ("method"@, Value::Text(method)),
            ("params"@, params),
        ],
    )
}

/// A message that answers a request of the server.
pub open spec fn response_value(id: Value, result: Value) -> Value {
    Value::Object(
        seq![("jsonrpc"@, Value::Text("2.0"@)), ("id"@, id), ("result"@, result)],
    )
}

/// A message that asks for something.
fn request_message(id: i64, method: &str, params: Json) -> (r: Json)
    ensures
        r@ == request_value(id, method@, params@),
{
    let ghost view = seq![
        ("jsonrpc"@, Value::Text("2.0"@)),
        ("id"@, Value::Integer(id as int)),
        ("method"@, Value::Text(method@)),
        ("params"@, params@),
    ];
    let mut fields: Vec<(String, Json)> = Vec::new();
    fields.push(("jsonrpc".to_string(), text_of("2.0")));
    fields.push(("id".to_string(), Json::Integer(id)));
    fields.push(("method".to_string(), text_of(method)));
    fields.push(("params".to_string(), params));
    assert(fields_view(fields@) =~= view);
    object_of(fields)
}

/// A message that only tells something.
fn notification_message(method: &str, params: Json) -> (r: Json)
    ensures
        r@ == notification_value(method@, params@),
{
    object3("jsonrpc", text_of("2.0"), "method", text_of(method), "params", params)
}

/// A message that answers a request of the server.
fn response_message(id: Json, result: Json) -> (r: Json)
    ensures
        r@ == response_value(id@, result@),
{
    object3("jsonrpc", text_of("2.0"), "id", id, "result", result)
}

/// The name of a workspace: the last name of its path, where that is a text.
pub open spec fn workspace_name(root: Seq<char>) -> Seq<char> {
    match file_name(root) {
        Some(name) => match exact_text(name) {
            Some(text) => text,
            None => "workspace"@,
        },
        None => "workspace"@,
    }
}

/// The folder of a workspace.
pub open spec fn folder_value(root: Seq<char>, uri: Seq<char>) -> Value {
    Value::Object(
        seq![("uri"@, Value::Text(uri)), ("name"@, Value::Text(workspace_name(root)))],
    )
}

/// The kinds of symbols that the client knows.
pub open spec fn kind_numbers() -> Value {
    Value::List(Seq::new(26, |i: int| Value::Integer(i + 1)))
}

/// What the client can do.
pub open spec fn capabilities_value() -> Value {
    Value::Object(
        seq![
            (
                "workspace"@,
                Value::Object(
                    seq![
                        ("configuration"@, Value::Bool(true)),
                        ("workspaceFolders"@, Value::Bool(true)),
                        (
                            "symbol"@,
                            Value::Object(
                                seq![
                                    ("dynamicRegistration"@, Value::Bool(false)),
                                    (
                                        "symbolKind"@,
                                        Value::Object(seq![("valueSet"@, kind_numbers())]),
                                    ),
                                ],
                            ),
                        ),
                    ],
                ),
            ),
            ("window"@, Value::Object(seq![("workDoneProgress"@, Value::Bool(true))])),
            (
                "textDocument"@,
                Value::Object(
                    seq![
                        (
                            "definition"@,
                            Value::Object(seq![("linkSupport"@, Value::Bool(true))]),
                        ),
                        (
                            "references"@,
                            Value::Object(seq![("dynamicRegistration"@, Value::Bool(false))]),
                        ),
                        (
                            "callHierarchy"@,
                            Value::Object(seq![("dynamicRegistration"@, Value::Bool(false))]),
                        ),
                    ],
                ),
            ),
        ],
    )
}

/// What the server is told of how to run.
pub open spec fn options_value() -> Value {
    Value::Object(
        seq![
            (
                "cargo"@,
                Value::Object(
                    seq![
                        (
                            "buildScripts"@,
                            Value::Object(seq![("enable"@, Value::Bool(true))]),
                        ),
                    ],
                ),
            ),
        ],
    )
}

/// The first request.
pub open spec fn initialize_value(root: Seq<char>, uri: Seq<char>, process_id: u32) -> Value {
    request_value(
        0,
        "initialize"@,
        Value::Object(
            seq![
                ("processId"@, Value::Integer(process_id as int)),
                ("rootUri"@, Value::Text(uri)),
                ("workspaceFolders"@, Value::List(seq![folder_value(root, uri)])),
                ("capabilities"@, capabilities_value()),
                ("initializationOptions"@, options_value()),
            ],
        ),
    )
}

fn workspace_name_of(root: &FilePath) -> (r: String)
    ensures
        r@ == workspace_name(root@),
{
    if let Some(name) = root.file_name() {
        if let Some(text) = name.to_text() {
            return text;
        }
    }
    "workspace".to_string()
}

fn folder(root: &FilePath, uri: &str) -> (r: Json)
    ensures
        r@ == folder_value(root@, uri@),
{
    let name = workspace_name_of(root);
    object2("uri", text_of(uri), "name", text_of(name.as_str()))
}

fn kind_list() -> (r: Json)
    ensures
        r@ == kind_numbers(),
{
    let mut items: Vec<Json> = Vec::new();
    let mut i: i64 = 0;
    while i < 26
        invariant
            0 <= i <= 26,
            items@.len() == i,
            forall|j: int| 0 <= j < i ==> (#[trigger] items@[j])@ == Value::Integer(j + 1),
        decreases 26 - i,
    {
        items.push(Json::Integer(i + 1));
        i = i + 1;
    }
    assert(values(items@) =~= kind_numbers()->List_0);
    list_of(items)
}

fn capabilities() -> (r: Json)
    ensures
        r@ == capabilities_value(),
{
    let kinds = object1("valueSet", kind_list());
    let symbol = object2("dynamicRegistration", Json::Bool(false), "symbolKind", kinds);
    let workspace = object3(
        "configuration",
        Json::Bool(true),
        "workspaceFolders",
        Json::Bool(true),
        "symbol",
        symbol,
    );
    let window = object1("workDoneProgress", Json::Bool(true));
    let document = object3(
        "definition",
        object1("linkSupport", Json::Bool(true)),
        "references",
        object1("dynamicRegistration", Json::Bool(false)),
        "callHierarchy",
        object1("dynamicRegistration", Json::Bool(false)),
    );
    object3("workspace", workspace, "window", window, "textDocument", document)
}

fn initialize_message(root: &FilePath, uri: &str, process_id: u32) -> (r: Json)
    ensures
        r@ == initialize_value(root@, uri@, process_id),
{
    let options = object1(
        "cargo",
        object1("buildScripts", object1("enable", Json::Bool(true))),
    );
    let ghost view = seq![
        ("processId"@, Value::Integer(process_id as int)),
        ("rootUri"@, Value::Text(uri@)),
        ("workspaceFolders"@, Value::List(seq![folder_value(root@, uri@)])),
        ("capabilities"@, capabilities_value()),
        ("initializationOptions"@, options_value()),
    ];
    let mut fields: Vec<(String, Json)> = Vec::new();
    fields.push(("processId".to_string(), Json::Integer(process_id as i64)));
    fields.push(("rootUri".to_string(), text_of(uri)));
    fields.push(("workspaceFolders".to_string(), list1(folder(root, uri))));
    fields.push(("capabilities".to_string(), capabilities()));
    fields.push(("initializationOptions".to_string(), options));
    assert(fields_view(fields@) =~= view);
    request_message(0, "initialize", object_of(fields))
}

/// The path of the file of a symbol.
pub open spec fn symbol_path(root: Seq<char>, file: Seq<char>) -> Seq<char> {
    if is_absolute(file) {
        file
    } else {
        joined(root, file)
    }
}

/// The path of the file of a symbol.
pub fn path_from_root(root: &FilePath, file: &FilePath) -> (r: FilePath)
    ensures
        r@ == symbol_path(root@, file@),
{
    if file.is_absolute() {
        file.copy()
    } else {
        root.join(file)
    }
}

/// A place in a document, with lines and columns counted from zero.
pub open spec fn position_value(uri: Seq<char>, line: u32, column: u32, context: Option<Value>) -> Value {
    let head = seq![
        ("textDocument"@, Value::Object(seq![("uri"@, Value::Text(uri))])),
        (
            "position"@,
            Value::Object(
                seq![
                    ("line"@, Value::Integer(if line > 0 {
                        line - 1
                    } else {
                        0
                    })),
                    ("character"@, Value::Integer(if column > 0 {
                        column - 1
                    } else {
                        0
                    })),
                ],
            ),
        ),
    ];
    match context {
        Some(context) => Value::Object(head.push(("context"@, context))),
        None => Value::Object(head),
    }
}

/// The place of a symbol, or why it has none.
pub open spec fn symbol_position(
    root: Seq<char>,
    symbol: SymbolView,
    context: Option<Value>,
) -> Result<Value, Fault> {
    let path = symbol_path(root, symbol.file);
    match file_uri(narrow(path)) {
        Some(uri) => Ok(position_value(uri, symbol.line, symbol.column, context)),
        None => Err(Fault::NoUri(shown(path))),
    }
}

/// A value that may be missing.
pub open spec fn json_option(value: Option<Json>) -> Option<Value> {
    match value {
        Some(value) => Some(value@),
        None => None,
    }
}

/// A place in a document, with lines and columns counted from zero.
pub fn position_params(uri: &str, line: u32, column: u32, context: Option<Json>) -> (r: Json)
    ensures
        r@ == position_value(uri@, line, column, json_option(context)),
{
    let document = object1("uri", text_of(uri));
    let position = object2(
        "line",
        Json::Integer(line.saturating_sub(1) as i64),
        "character",
        Json::Integer(column.saturating_sub(1) as i64),
    );
    match context {
        Some(context) => {
            let r = object3(
                "textDocument",
                document,
                "position",
                position,
                "context",
                context,
            );
            assert(r@->Object_0 =~= position_value(
                uri@,
                line,
                column,
                Some(context@),
            )->Object_0);
            r
        },
        None => object2("textDocument", document, "position", position),
    }
}

impl ClientView {
    /// With the next number for a request used up. Numbers begin anew behind the
    /// last one.
    pub open spec fn numbered(self) -> ClientView {
        ClientView { next_id: after_id(self.next_id), ..self }
    }

    /// With a request that waits for its answer.
    pub open spec fn awaiting(self, id: i64, pending: Pending) -> ClientView {
        ClientView { pending: self.pending.insert(id, pending), ..self }
    }

    /// With a request answered.
    pub open spec fn answered(self, id: i64) -> ClientView {
        ClientView { pending: self.pending.remove(id), ..self }
    }
}

/// The number of the request behind another.
pub open spec fn after_id(id: i64) -> i64 {
    if id == i64::MAX {
        i64::MIN
    } else {
        (id + 1) as i64
    }
}

impl LspClient {
    /// A client for the workspace at `root`.
    pub fn new(root: FilePath) -> (r: LspClient)
        ensures
            r@.root == root@,
            r@.next_id == 1_000_000,
            r@.pending == Map::<i64, Pending>::empty(),
    {
        let client = LspClient { root, next_id: 1_000_000, pending_requests: HashMap::new() };
        assert(client@.pending =~= Map::empty());
        client
    }

    /// The root of the workspace.
    pub fn root(&self) -> (r: &FilePath)
        ensures
            r@ == self@.root,
    {
        &self.root
    }

    /// The first request, or why it cannot be made.
    pub fn initialize(&self, process_id: u32) -> (r: Result<Json, LspError>)
        ensures
            match uri_for(self@.root) {
                Ok(uri) => r matches Ok(message) && message@ == initialize_value(
                    self@.root,
                    uri,
                    process_id,
                ),
                Err(fault) => r matches Err(error) && error@ == fault,
            },
            r is Ok <==> is_absolute(self@.root),
    {
        match path_to_uri(&self.root) {
            Ok(uri) => Ok(initialize_message(&self.root, uri.as_str(), process_id)),
            Err(error) => Err(error),
        }
    }

    /// Asks for the symbols of the workspace that match a query.
    pub fn workspace_symbol(&mut self, query: String) -> (r: Request)
        ensures
            symbols_asked(old(self)@, final(self)@, query@, r),
    {
        let id = self.next_request_id();
        let params = object1("query", text_of(query.as_str()));
        self.insert_pending(id, PendingRequest::WorkspaceSymbol { query });
        Request { id, message: request_message(id, "workspace/symbol", params) }
    }

    /// Asks for the references to a symbol.
    pub fn references(&mut self, symbol: &Symbol, key: String) -> (r: Result<Request, LspError>)
        ensures
            references_asked(old(self)@, final(self)@, symbol@, key@, r),
    {
        let id = self.next_request_id();
        let context = object1("includeDeclaration", Json::Bool(false));
        match self.text_document_position_params(symbol, Some(context)) {
            Ok(params) => {
                self.insert_pending(id, PendingRequest::References { key });
                Ok(Request { id, message: request_message(id, "textDocument/references", params) })
            },
            Err(error) => Err(error),
        }
    }

    /// Asks for the callers of a symbol.
    pub fn incoming_calls(&mut self, symbol: &Symbol, key: String) -> (r: Result<
        Request,
        LspError,
    >)
        ensures
            prepared(old(self)@, final(self)@, symbol@, key@, CallDirection::Incoming, r),
    {
        self.prepare_call_hierarchy(symbol, key, CallDirection::Incoming)
    }

    /// Asks for what a symbol calls.
    pub fn outgoing_calls(&mut self, symbol: &Symbol, key: String) -> (r: Result<
        Request,
        LspError,
    >)
        ensures
            prepared(old(self)@, final(self)@, symbol@, key@, CallDirection::Outgoing, r),
    {
        self.prepare_call_hierarchy(symbol, key, CallDirection::Outgoing)
    }

    /// The messages that end the server.
    pub fn shutdown(&mut self) -> (r: (Json, Json))
        ensures
            final(self)@ == old(self)@.numbered(),
            r.0@ == request_value(old(self)@.next_id, "shutdown"@, Value::Null),
            r.1@ == notification_value("exit"@, Value::Null),
    {
        let id = self.next_request_id();
        (
            request_message(id, "shutdown", Json::Null),
            notification_message("exit", Json::Null),
        )
    }

    fn next_request_id(&mut self) -> (id: i64)
        ensures
            id == old(self)@.next_id,
            final(self)@ == old(self)@.numbered(),
    {
        let id: i64 = self.next_id;
        self.next_id = if id == i64::MAX {
            i64::MIN
        } else {
            id + 1
        };
        id
    }

    fn prepare_call_hierarchy(&mut self, symbol: &Symbol, key: String, direction: CallDirection) -> (r:
        Result<Request, LspError>)
        ensures
            prepared(old(self)@, final(self)@, symbol@, key@, direction, r),
    {
        let id = self.next_request_id();
        match self.text_document_position_params(symbol, None) {
            Ok(params) => {
                self.insert_pending(id, PendingRequest::PrepareCallHierarchy { key, direction });
                Ok(
                    Request {
                        id,
                        message: request_message(id, "textDocument/prepareCallHierarchy", params),
                    },
                )
            },
            Err(error) => Err(error),
        }
    }

    fn text_document_position_params(&self, symbol: &Symbol, context: Option<Json>) -> (r: Result<
        Json,
        LspError,
    >)
        ensures
            match symbol_position(self@.root, symbol@, json_option(context)) {
                Ok(params) => r matches Ok(json) && json@ == params,
                Err(fault) => r matches Err(error) && error@ == fault,
            },
            r is Ok <==> is_absolute(symbol_path(self@.root, symbol@.file)),
    {
        let path = self.symbol_path(symbol);
        match uri_of_file(&path.bytes()) {
            Some(uri) => Ok(position_params(uri.as_str(), symbol.line, symbol.column, context)),
            None => Err(LspError::NoUri(path.text())),
        }
    }

    fn symbol_path(&self, symbol: &Symbol) -> (r: FilePath)
        ensures
            r@ == symbol_path(self@.root, symbol@.file),
    {
        path_from_root(&self.root, &symbol.file)
    }

    fn insert_pending(&mut self, id: i64, request: PendingRequest)
        ensures
            final(self)@ == old(self)@.awaiting(id, request@),
    {
        let ghost before = self@;
        let ghost added = request@;
        self.pending_requests.insert(id, request);
        assert(self@.pending =~= before.pending.insert(id, added));
    }

    fn take_pending_request(&mut self, id: i64) -> (r: Option<PendingRequest>)
        ensures
            final(self)@ == old(self)@.answered(id),
            match r {
                Some(request) => old(self)@.pending.contains_key(id) && request@
                    == old(self)@.pending[id],
                None => !old(self)@.pending.contains_key(id),
            },
    {
        let ghost before = self@;
        let taken = self.pending_requests.remove(&id);
        assert(self@.pending =~= before.pending.remove(id));
        taken
    }
}

/// What asking for the symbols that match a query leads to.
pub open spec fn symbols_asked(
    before: ClientView,
    after: ClientView,
    query: Seq<char>,
    r: Request,
) -> bool {
    &&& after == before.numbered().awaiting(before.next_id, Pending::WorkspaceSymbol { query })
    &&& r.id == before.next_id
    &&& r.message@ == request_value(
        before.next_id,
        "workspace/symbol"@,
        Value::Object(seq![("query"@, Value::Text(query))]),
    )
}

/// What asking for the references to a symbol leads to.
pub open spec fn references_asked(
    before: ClientView,
    after: ClientView,
    symbol: SymbolView,
    key: Seq<char>,
    r: Result<Request, LspError>,
) -> bool {
    let context = Value::Object(seq![("includeDeclaration"@, Value::Bool(false))]);
    &&& r is Ok <==> is_absolute(symbol_path(before.root, symbol.file))
    &&& match symbol_position(before.root, symbol, Some(context)) {
        Ok(params) => {
            &&& r matches Ok(request)
            &&& request.id == before.next_id
            &&& request.message@ == request_value(
                before.next_id,
                "textDocument/references"@,
                params,
            )
            &&& after == before.numbered().awaiting(before.next_id, Pending::References { key })
        },
        Err(fault) => {
            &&& r matches Err(error)
            &&& error@ == fault
            &&& after == before.numbered()
        },
    }
}

/// What asking for callers or callees leads to.
pub open spec fn prepared(
    before: ClientView,
    after: ClientView,
    symbol: SymbolView,
    key: Seq<char>,
    direction: CallDirection,
    r: Result<Request, LspError>,
) -> bool {
    &&& r is Ok <==> is_absolute(symbol_path(before.root, symbol.file))
    &&& match symbol_position(before.root, symbol, None) {
        Ok(params) => {
            &&& r matches Ok(request)
            &&& request.id == before.next_id
            &&& request.message@ == request_value(
                before.next_id,
                "textDocument/prepareCallHierarchy"@,
                params,
            )
            &&& after == before.numbered().awaiting(
                before.next_id,
                Pending::PrepareCallHierarchy { key, direction },
            )
        },
        Err(fault) => {
            &&& r matches Err(error)
            &&& error@ == fault
            &&& after == before.numbered()
        },
    }
}

// ---------------------------------------------------------------------------
// Messages of the server
// ---------------------------------------------------------------------------

/// A message of the server: its value, and the texts that two of its parts are
/// written as, where it has them: the error, and the token of a progress.
#[derive(Debug)]
pub struct Message {
    pub value: Json,
    pub error_text: Option<String>,
    pub token_text: Option<String>,
}

/// The token of a progress.
pub open spec fn token_of(value: Value) -> Option<Value> {
    match value.field("params"@) {
        Some(params) => params.field("token"@),
        None => None,
    }
}

impl Message {
    /// The texts are there exactly where the parts are.
    pub open spec fn wf(self) -> bool {
        &&& self.error_text is Some <==> self.value@.field("error"@) is Some
        &&& self.token_text is Some <==> token_of(self.value@) is Some
    }

    /// Whether the texts are there exactly where the parts are.
    pub fn is_whole(&self) -> (r: bool)
        ensures
            r == self.wf(),
    {
        let has_error = self.value.get("error").is_some();
        let has_token = match self.value.get("params") {
            Some(params) => params.get("token").is_some(),
            None => false,
        };
        self.error_text.is_some() == has_error && self.token_text.is_some() == has_token
    }
}

/// What a message leads to.
#[derive(Debug, PartialEq, Eq)]
pub enum Reaction {
    /// Nothing is to be done.
    Ignore,
    /// Tell this.
    Tell(LspEvent),
    /// Send this to the server.
    Send(Json),
    /// Send this to the server, and tell that it is ready.
    Ready(Json),
    /// Read the symbols of the answer.
    ReadSymbols { request_id: i64, query: String },
    /// Read the places of the answer.
    ReadLocations { key: String },
    /// Read the callers of the answer, or the callees.
    ReadCalls { key: String, direction: CallDirection },
    /// The workspace has no URI.
    Fail(LspError),
}

/// What a message leads to.
pub enum ReactionView {
    Ignore,
    Tell(EventView),
    Send(Value),
    Ready(Value),
    ReadSymbols { request_id: i64, query: Seq<char> },
    ReadLocations { key: Seq<char> },
    ReadCalls { key: Seq<char>, direction: CallDirection },
    Fail(Fault),
}

impl View for Reaction {
    type V = ReactionView;

    open spec fn view(&self) -> ReactionView {
        match self {
            Reaction::Ignore => ReactionView::Ignore,
            Reaction::Tell(event) => ReactionView::Tell(event@),
            Reaction::Send(message) => ReactionView::Send(message@),
            Reaction::Ready(message) => ReactionView::Ready(message@),
            Reaction::ReadSymbols { request_id, query } => ReactionView::ReadSymbols {
                request_id: *request_id,
                query: query@,
            },
            Reaction::ReadLocations { key } => ReactionView::ReadLocations { key: key@ },
            Reaction::ReadCalls { key, direction } => ReactionView::ReadCalls {
                key: key@,
                direction: *direction,
            },
            Reaction::Fail(error) => ReactionView::Fail(error@),
        }
    }
}

/// What a progress tells: its token, whether it goes on, and its message, or
/// else its title, or else its kind.
pub open spec fn progress_of(value: Value, token: Seq<char>) -> Option<EventView> {
    match value.field("params"@) {
        Some(params) => match params.field("value"@) {
            Some(progress) => match progress.text_field("kind"@) {
                Some(kind) => if params.field("token"@) is Some {
                    Some(
                        EventView::Progress {
                            token,
                            active: kind != "end"@,
                            message: match progress.text_field("message"@) {
                                Some(message) => message,
                                None => match progress.text_field("title"@) {
                                    Some(title) => title,
                                    None => kind,
                                },
                            },
                        },
                    )
                } else {
                    None
                },
                None => None,
            },
            None => None,
        },
        None => None,
    }
}

/// The number of things that the server asks the configuration of.
pub open spec fn item_count(value: Value) -> nat {
    match value.field("params"@) {
        Some(params) => match params.field("items"@) {
            Some(Value::List(items)) => items.len(),
            _ => 0,
        },
        None => 0,
    }
}

/// What a request of the server is answered.
pub open spec fn answer_to(root: Seq<char>, value: Value, method: Seq<char>) -> Result<
    Value,
    Fault,
> {
    if method == "workspace/configuration"@ {
        Ok(Value::List(Seq::new(item_count(value), |i: int| Value::Object(Seq::empty()))))
    } else if method == "workspace/workspaceFolders"@ {
        match uri_for(root) {
            Ok(uri) => Ok(Value::List(seq![folder_value(root, uri)])),
            Err(fault) => Err(fault),
        }
    } else {
        Ok(Value::Null)
    }
}

/// What is told of a request that the server answers with an error.
pub open spec fn pending_error(pending: Pending, message: Seq<char>) -> EventView {
    match pending {
        Pending::WorkspaceSymbol { .. } => EventView::Error(message),
        Pending::References { key } => EventView::SideError { key, message },
        Pending::PrepareCallHierarchy { key, .. } => EventView::SideError { key, message },
        Pending::IncomingCalls { key } => EventView::SideError { key, message },
        Pending::OutgoingCalls { key } => EventView::SideError { key, message },
    }
}

/// The method that asks for callers, or for callees.
pub open spec fn calls_method(direction: CallDirection) -> Seq<char> {
    match direction {
        CallDirection::Incoming => "callHierarchy/incomingCalls"@,
        CallDirection::Outgoing => "callHierarchy/outgoingCalls"@,
    }
}

/// The request for callers or callees.
pub open spec fn calls_pending(key: Seq<char>, direction: CallDirection) -> Pending {
    match direction {
        CallDirection::Incoming => Pending::IncomingCalls { key },
        CallDirection::Outgoing => Pending::OutgoingCalls { key },
    }
}

/// The first item of an answer.
pub open spec fn first_item(value: Value) -> Option<Value> {
    match value.field("result"@) {
        Some(result) => result.first(),
        None => None,
    }
}

impl ClientView {
    /// What the answer to a request leads to.
    pub open spec fn replied(
        self,
        id: i64,
        value: Value,
        error_text: Option<Seq<char>>,
    ) -> (ClientView, ReactionView) {
        if !self.pending.contains_key(id) {
            (self.answered(id), ReactionView::Ignore)
        } else {
            let pending = self.pending[id];
            let after = self.answered(id);
            match error_text {
                Some(text) => (after, ReactionView::Tell(pending_error(pending, text))),
                None => match pending {
                    Pending::WorkspaceSymbol { query } => (
                        after,
                        ReactionView::ReadSymbols { request_id: id, query },
                    ),
                    Pending::References { key } => (after, ReactionView::ReadLocations { key }),
                    Pending::IncomingCalls { key } => (
                        after,
                        ReactionView::ReadCalls { key, direction: CallDirection::Incoming },
                    ),
                    Pending::OutgoingCalls { key } => (
                        after,
                        ReactionView::ReadCalls { key, direction: CallDirection::Outgoing },
                    ),
                    Pending::PrepareCallHierarchy { key, direction } => match first_item(value) {
                        None => (
                            after,
                            ReactionView::Tell(
                                EventView::CallHierarchy { key, direction, hits: Seq::empty() },
                            ),
                        ),
                        Some(item) => (
                            after.numbered().awaiting(
                                after.next_id,
                                calls_pending(key, direction),
                            ),
                            ReactionView::Send(
                                request_value(
                                    after.next_id,
                                    calls_method(direction),
                                    Value::Object(seq![("item"@, item)]),
                                ),
                            ),
                        ),
                    },
                },
            }
        }
    }

    /// What a message leads to.
    pub open spec fn received(
        self,
        value: Value,
        error_text: Option<Seq<char>>,
        token_text: Option<Seq<char>>,
    ) -> (ClientView, ReactionView) {
        match value.text_field("method"@) {
            Some(method) => if method == "$/progress"@ {
                match token_text {
                    Some(token) => match progress_of(value, token) {
                        Some(event) => (self, ReactionView::Tell(event)),
                        None => (self, ReactionView::Ignore),
                    },
                    None => (self, ReactionView::Ignore),
                }
            } else {
                match value.field("id"@) {
                    Some(id) => match answer_to(self.root, value, method) {
                        Ok(result) => (self, ReactionView::Send(response_value(id, result))),
                        Err(fault) => (self, ReactionView::Fail(fault)),
                    },
                    None => (self, ReactionView::Ignore),
                }
            },
            None => match value.integer_field("id"@) {
                Some(id) => if id == 0 {
                    (
                        self,
                        ReactionView::Ready(
                            notification_value("initialized"@, Value::Object(Seq::empty())),
                        ),
                    )
                } else {
                    self.replied(id as i64, value, error_text)
                },
                None => match error_text {
                    Some(text) => (self, ReactionView::Tell(EventView::Error(text))),
                    None => (self, ReactionView::Ignore),
                },
            },
        }
    }
}

fn parse_progress(value: &Json, token: String) -> (r: Option<LspEvent>)
    ensures
        match progress_of(value@, token@) {
            Some(event) => r matches Some(found) && found@ == event,
            None => r is None,
        },
{
    let Some(params) = value.get("params") else {
        return None;
    };
    if params.get("token").is_none() {
        return None;
    }
    let Some(progress) = params.get("value") else {
        return None;
    };
    let Some(kind) = progress.get_text("kind") else {
        return None;
    };
    let message = match progress.get_text("message") {
        Some(message) => message,
        None => match progress.get_text("title") {
            Some(title) => title,
            None => kind,
        },
    };
    Some(
        LspEvent::Progress { token, active: !same(kind, "end"), message: message.to_string() },
    )
}

fn send_pending_error(pending: PendingRequest, message: String) -> (r: LspEvent)
    ensures
        r@ == pending_error(pending@, message@),
{
    match pending {
        PendingRequest::WorkspaceSymbol { query: _ } => LspEvent::Error(message),
        PendingRequest::References { key } => LspEvent::SideError { key, message },
        PendingRequest::PrepareCallHierarchy { key, direction: _ } => {
            LspEvent::SideError { key, message }
        },
        PendingRequest::IncomingCalls { key } => LspEvent::SideError { key, message },
        PendingRequest::OutgoingCalls { key } => LspEvent::SideError { key, message },
    }
}

fn count_items(value: &Json) -> (n: usize)
    ensures
        n == item_count(value@),
{
    match value.get("params") {
        Some(params) => match params.get("items") {
            Some(Json::List(items)) => items.len(),
            _ => 0,
        },
        None => 0,
    }
}

fn empty_object() -> (r: Json)
    ensures
        r@ == Value::Object(Seq::empty()),
{
    let fields: Vec<(String, Json)> = Vec::new();
    assert(fields_view(fields@) =~= Seq::empty());
    object_of(fields)
}

impl LspClient {
    /// What a request of the server is answered.
    fn server_answer(&self, value: &Json, method: &str) -> (r: Result<Json, LspError>)
        ensures
            match answer_to(self@.root, value@, method@) {
                Ok(answer) => r matches Ok(json) && json@ == answer,
                Err(fault) => r matches Err(error) && error@ == fault,
            },
    {
        if same(method, "workspace/configuration") {
            let count = count_items(value);
            let ghost all = Seq::new(count as nat, |i: int| Value::Object(Seq::empty()));
            let mut items: Vec<Json> = Vec::new();
            let mut i: usize = 0;
            while i < count
                invariant
                    i <= count,
                    items@.len() == i,
                    forall|j: int|
                        0 <= j < i ==> (#[trigger] items@[j])@ == Value::Object(Seq::empty()),
                decreases count - i,
            {
                items.push(empty_object());
                i = i + 1;
            }
            assert(values(items@) =~= all);
            Ok(list_of(items))
        } else if same(method, "workspace/workspaceFolders") {
            match path_to_uri(&self.root) {
                Ok(uri) => Ok(list1(folder(&self.root, uri.as_str()))),
                Err(error) => Err(error),
            }
        } else {
            Ok(Json::Null)
        }
    }

    /// Takes in a message of the server, and returns what it leads to.
    pub fn receive(&mut self, message: Message) -> (r: Reaction)
        requires
            message.wf(),
        ensures
            old(self)@.received(
                message.value@,
                option_view(message.error_text),
                option_view(message.token_text),
            ).0 == final(self)@,
            old(self)@.received(
                message.value@,
                option_view(message.error_text),
                option_view(message.token_text),
            ).1 == r@,
    {
        let value = message.value;
        if let Some(method) = value.get_text("method") {
            if same(method, "$/progress") {
                return match message.token_text {
                    Some(token) => match parse_progress(&value, token) {
                        Some(event) => Reaction::Tell(event),
                        None => Reaction::Ignore,
                    },
                    None => Reaction::Ignore,
                };
            }
            if value.get("id").is_none() {
                return Reaction::Ignore;
            }
            let answer = self.server_answer(&value, method);
            return match answer {
                Ok(result) => match value.take("id") {
                    Some(id) => Reaction::Send(response_message(id, result)),
                    None => Reaction::Ignore,
                },
                Err(error) => Reaction::Fail(error),
            };
        }
        match value.get_integer("id") {
            Some(id) => {
                if id == 0 {
                    Reaction::Ready(notification_message("initialized", empty_object()))
                } else {
                    self.take_reply(id, value, message.error_text)
                }
            },
            None => match message.error_text {
                Some(text) => Reaction::Tell(LspEvent::Error(text)),
                None => Reaction::Ignore,
            },
        }
    }

    /// Takes in the answer to a request.
    fn take_reply(&mut self, id: i64, value: Json, error_text: Option<String>) -> (r: Reaction)
        ensures
            old(self)@.replied(id, value@, option_view(error_text)).0 == final(self)@,
            old(self)@.replied(id, value@, option_view(error_text)).1 == r@,
    {
        let Some(pending) = self.take_pending_request(id) else {
            return Reaction::Ignore;
        };
        if let Some(text) = error_text {
            return Reaction::Tell(send_pending_error(pending, text));
        }
        match pending {
            PendingRequest::WorkspaceSymbol { query } => Reaction::ReadSymbols {
                request_id: id,
                query,
            },
            PendingRequest::References { key } => Reaction::ReadLocations { key },
            PendingRequest::IncomingCalls { key } => Reaction::ReadCalls {
                key,
                direction: CallDirection::Incoming,
            },
            PendingRequest::OutgoingCalls { key } => Reaction::ReadCalls {
                key,
                direction: CallDirection::Outgoing,
            },
            PendingRequest::PrepareCallHierarchy { key, direction } => {
                self.handle_call_hierarchy_prepare(key, direction, value)
            },
        }
    }

    /// Asks for the callers or callees of the first item of an answer; where there
    /// is no item, there are none.
    fn handle_call_hierarchy_prepare(&mut self, key: String, direction: CallDirection, value: Json) -> (r:
        Reaction)
        ensures
            match first_item(value@) {
                None => final(self)@ == old(self)@ && r@ == ReactionView::Tell(
                    EventView::CallHierarchy { key: key@, direction, hits: Seq::empty() },
                ),
                Some(item) => {
                    &&& final(self)@ == old(self)@.numbered().awaiting(
                        old(self)@.next_id,
                        calls_pending(key@, direction),
                    )
                    &&& r@ == ReactionView::Send(
                        request_value(
                            old(self)@.next_id,
                            calls_method(direction),
                            Value::Object(seq![("item"@, item)]),
                        ),
                    )
                },
            },
    {
        let first = match value.take("result") {
            Some(result) => result.take_first(),
            None => None,
        };
        let Some(item) = first else {
            let hits: Vec<LocationHit> = Vec::new();
            assert(hit_views(hits@) =~= Seq::empty());
            return Reaction::Tell(LspEvent::CallHierarchy { key, direction, hits });
        };
        let id = self.next_request_id();
        let method = match direction {
            CallDirection::Incoming => {
                self.insert_pending(id, PendingRequest::IncomingCalls { key });
                "callHierarchy/incomingCalls"
            },
            CallDirection::Outgoing => {
                self.insert_pending(id, PendingRequest::OutgoingCalls { key });
                "callHierarchy/outgoingCalls"
            },
        };
        Reaction::Send(request_message(id, method, object1("item", item)))
    }

    /// What is told of the symbols of an answer; none where there is no answer.
    pub fn symbols_event(
        &self,
        request_id: i64,
        query: String,
        answer: Option<Vec<WorkspaceSymbol>>,
    ) -> (r: Result<LspEvent, LspError>)
        requires
            answer matches Some(list) ==> forall|i: int|
                0 <= i < list@.len() ==> (#[trigger] list@[i]).countable(),
        ensures
            ({
                let symbols = match answer {
                    Some(list) => symbols_of(list@, self@.root),
                    None => Ok(Seq::empty()),
                };
                match symbols {
                    Ok(symbols) => r matches Ok(event) && event@ == (EventView::Symbols {
                        request_id,
                        query: query@,
                        symbols,
                    }),
                    Err(fault) => r matches Err(error) && error@ == fault,
                }
            }),
    {
        let symbols = match answer {
            Some(list) => match parse_symbols(list, &self.root) {
                Ok(symbols) => symbols,
                Err(error) => {
                    return Err(error);
                },
            },
            None => {
                let none: Vec<Symbol> = Vec::new();
                assert(symbol_views(none@) =~= Seq::empty());
                none
            },
        };
        Ok(LspEvent::Symbols { request_id, query, symbols })
    }

    /// What is told of the places of an answer; none where there is no answer.
    pub fn references_event(&self, key: String, answer: Option<Vec<Location>>) -> (r: Result<
        LspEvent,
        LspError,
    >)
        requires
            answer matches Some(list) ==> forall|i: int|
                0 <= i < list@.len() ==> (#[trigger] list@[i]).range.start.countable(),
        ensures
            ({
                let hits = match answer {
                    Some(list) => locations_of(list@, self@.root),
                    None => Ok(Seq::empty()),
                };
                match hits {
                    Ok(hits) => r matches Ok(event) && event@ == (EventView::References {
                        key: key@,
                        hits,
                    }),
                    Err(fault) => r matches Err(error) && error@ == fault,
                }
            }),
    {
        let hits = match answer {
            Some(list) => match parse_locations(list, &self.root) {
                Ok(hits) => hits,
                Err(error) => {
                    return Err(error);
                },
            },
            None => {
                let none: Vec<LocationHit> = Vec::new();
                assert(hit_views(none@) =~= Seq::empty());
                none
            },
        };
        Ok(LspEvent::References { key, hits })
    }

    /// What is told of the callers or callees of an answer; none where there is
    /// no answer.
    pub fn calls_event(
        &self,
        key: String,
        direction: CallDirection,
        answer: Option<Vec<CallHierarchyItem>>,
    ) -> (r: Result<LspEvent, LspError>)
        requires
            answer matches Some(list) ==> forall|i: int|
                0 <= i < list@.len() ==> (#[trigger] list@[i]).selection_range.start.countable(),
        ensures
            ({
                let hits = match answer {
                    Some(list) => calls_of(list@, self@.root),
                    None => Ok(Seq::empty()),
                };
                match hits {
                    Ok(hits) => r matches Ok(event) && event@ == (EventView::CallHierarchy {
                        key: key@,
                        direction,
                        hits,
                    }),
                    Err(fault) => r matches Err(error) && error@ == fault,
                }
            }),
    {
        let hits = match answer {
            Some(list) => match parse_calls(list, &self.root) {
                Ok(hits) => hits,
                Err(error) => {
                    return Err(error);
                },
            },
            None => {
                let none: Vec<LocationHit> = Vec::new();
                assert(hit_views(none@) =~= Seq::empty());
                none
            },
        };
        Ok(LspEvent::CallHierarchy { key, direction, hits })
    }
}

/// An answer to no request that waits for one changes nothing.
pub proof fn law_unknown_answer_ignored(
    client: ClientView,
    id: i64,
    value: Value,
    error_text: Option<Seq<char>>,
)
    requires
        !client.pending.contains_key(id),
    ensures
        client.replied(id, value, error_text) == (client, ReactionView::Ignore),
{
    assert(client.pending.remove(id) =~= client.pending);
}

/// A request is answered once: behind its answer it waits for none. Left out is a
/// number that is given to the next request once more.
pub proof fn law_answered_once(
    client: ClientView,
    id: i64,
    value: Value,
    error_text: Option<Seq<char>>,
)
    requires
        id != client.next_id,
    ensures
        !client.replied(id, value, error_text).0.pending.contains_key(id),
{
}

// ---------------------------------------------------------------------------
// The frame of a message
// ---------------------------------------------------------------------------

/// The header of a message of `len` bytes.
pub open spec fn header(len: nat) -> Seq<char> {
    "Content-Length: "@ + decimal(len) + "\r\n\r\n"@
}

/// The header of a message of `len` bytes.
pub fn message_header(len: usize) -> (r: String)
    ensures
        r@ == header(len as nat),
{
    let number = decimal_of(len as u64);
    concat3("Content-Length: ", number.as_str(), "\r\n\r\n")
}

/// `line` without the carriage returns and line feeds at its end.
pub open spec fn without_end(line: Seq<char>) -> Seq<char>
    decreases line.len(),
{
    if line.len() > 0 && (line.last() == '\r' || line.last() == '\n') {
        without_end(line.drop_last())
    } else {
        line
    }
}

/// What a line of a header says.
pub enum HeaderLine {
    /// The header ends.
    End,
    /// The message has this many bytes.
    Length(nat),
    /// Nothing of interest.
    Other,
    /// This is no length.
    Invalid(Seq<char>),
}

/// What a line of a header says.
pub open spec fn header_line(line: Seq<char>) -> HeaderLine {
    let text = without_end(line);
    if text.len() == 0 {
        HeaderLine::End
    } else if has_prefix(text, "Content-Length:"@) {
        let value = trim(text.skip("Content-Length:"@.len() as int));
        match unsigned(value, usize::MAX as nat) {
            Some(n) => HeaderLine::Length(n),
            None => HeaderLine::Invalid(value),
        }
    } else {
        HeaderLine::Other
    }
}

/// A header that is being read: the length of the message, if it has been told.
#[derive(Debug)]
pub struct Header {
    pub content_len: Option<usize>,
}

impl Header {
    /// A header of which nothing has been read.
    pub fn new() -> (r: Header)
        ensures
            r.content_len is None,
    {
        Header { content_len: None }
    }

    /// Reads the next line of the header. At its end it returns the length of the
    /// message.
    pub fn read_line(&mut self, line: &str) -> (r: Result<Option<usize>, LspError>)
        ensures
            match header_line(line@) {
                HeaderLine::End => {
                    &&& final(self).content_len == old(self).content_len
                    &&& match old(self).content_len {
                        Some(n) => r == Ok::<Option<usize>, LspError>(Some(n)),
                        None => r matches Err(error) && error@ == Fault::MissingLength,
                    }
                },
                HeaderLine::Length(n) => {
                    &&& r == Ok::<Option<usize>, LspError>(None)
                    &&& final(self).content_len == Some(n as usize)
                    &&& n <= usize::MAX
                },
                HeaderLine::Other => {
                    &&& r == Ok::<Option<usize>, LspError>(None)
                    &&& final(self).content_len == old(self).content_len
                },
                HeaderLine::Invalid(text) => {
                    &&& r matches Err(error)
                    &&& error@ == Fault::InvalidLength(text)
                    &&& final(self).content_len == old(self).content_len
                },
            },
    {
        let text = trim_line_end(line);
        if text.as_str().is_empty() {
            return match self.content_len {
                Some(n) => Ok(Some(n)),
                None => Err(LspError::MissingLength),
            };
        }
        if let Some(rest) = strip_prefix(text.as_str(), "Content-Length:") {
            let value = trim_of(rest.as_str());
            match parse_unsigned(value.as_str(), usize::MAX as u64) {
                Some(n) => {
                    self.content_len = Some(n as usize);
                },
                None => {
                    return Err(LspError::InvalidLength(value));
                },
            }
        }
        Ok(None)
    }
}

fn trim_line_end(line: &str) -> (r: String)
    ensures
        r@ == without_end(line@),
{
    let chars = chars_of(line);
    let mut n: usize = chars.len();
    assert(chars@.take(n as int) =~= chars@);
    while n > 0 && (chars[n - 1] == '\r' || chars[n - 1] == '\n')
        invariant
            n <= chars@.len(),
            without_end(chars@) == without_end(chars@.take(n as int)),
        decreases n,
    {
        assert(chars@.take(n as int).drop_last() =~= chars@.take(n - 1));
        n = n - 1;
    }
    let out = string_of(&chars, 0, n);
    assert(out@ =~= chars@.take(n as int));
    out
}

/// A header that is read back gives the length that it was written with: its first
/// line tells the length, and its second line, which is the rest of it, ends it.
pub proof fn law_header_read_back(len: nat)
    requires
        len <= usize::MAX,
    ensures
        header(len) == "Content-Length: "@ + decimal(len) + "\r\n"@ + "\r\n"@,
        header_line("Content-Length: "@ + decimal(len) + "\r\n"@) == HeaderLine::Length(len),
        header_line("\r\n"@) == HeaderLine::End,
{
    reveal_strlit("Content-Length: ");
    reveal_strlit("Content-Length:");
    reveal_strlit("\r\n\r\n");
    reveal_strlit("\r\n");
    let name = "Content-Length: "@;
    let digits = decimal(len);
    lemma_decimal(len);
    assert(header(len) =~= name + digits + "\r\n"@ + "\r\n"@);
    assert(is_digit(digits[0]));
    assert(is_digit(digits.last()));
    let line = name + digits + "\r\n"@;
    let text = name + digits;
    assert(line.drop_last().drop_last() =~= text);
    assert(without_end(text) == text);
    reveal_with_fuel(without_end, 3);
    assert(without_end(line) == text);
    assert(text.take("Content-Length:"@.len() as int) =~= "Content-Length:"@);
    let rest = text.skip("Content-Length:"@.len() as int);
    assert(rest =~= seq![' '] + digits);
    assert(rest.drop_first() =~= digits);
    assert(trim_start(rest) == trim_start(digits));
    assert(trim_start(digits) == digits);
    assert(trim_end(digits) == digits);
    assert(unsigned_digits(digits) == digits);
    assert("\r\n"@.drop_last().drop_last() =~= Seq::<char>::empty());
}

// ---------------------------------------------------------------------------
// Waiting for the server
// ---------------------------------------------------------------------------

/// How long the server is waited for, in milliseconds.
pub const PATIENCE: u64 = 20000;

/// A time, in milliseconds, up to which something is waited for.
#[derive(Clone, Copy, Debug, PartialEq, Eq, Structural)]
pub struct Deadline {
    pub at: u64,
}

impl Deadline {
    /// The time `wait` after `now`, as far as times go.
    pub fn after(now: u64, wait: u64) -> (r: Deadline)
        ensures
            r.at == if now + wait > u64::MAX {
                u64::MAX as int
            } else {
                now + wait
            },
    {
        if wait > u64::MAX - now {
            Deadline { at: u64::MAX }
        } else {
            Deadline { at: now + wait }
        }
    }

    /// How long there is still to wait, if the time is not over.
    pub fn rest(self, now: u64) -> (r: Option<u64>)
        ensures
            match r {
                Some(rest) => now < self.at && rest == self.at - now,
                None => now >= self.at,
            },
    {
        if now < self.at {
            Some(self.at - now)
        } else {
            None
        }
    }
}

/// What came while the server was waited for.
#[derive(Debug)]
pub enum Waited {
    /// This was told.
    Event(LspEvent),
    /// The time is over.
    TimeOver,
    /// Nothing can come any more, for this reason.
    Closed(String),
}

/// Whether the server is ready, after something came while it was waited for: it
/// is, or it has to be waited for on, or it cannot be waited for.
pub fn wait_for_ready(waited: Waited) -> (r: Result<bool, String>)
    ensures
        match waited {
            Waited::Event(LspEvent::Ready) => r == Ok::<bool, String>(true),
            Waited::Event(LspEvent::Error(message)) => r == Err::<bool, String>(message),
            Waited::Event(_) => r == Ok::<bool, String>(false),
            Waited::TimeOver => r matches Err(why) && why@
                == "rust-analyzer did not initialize before timeout"@,
            Waited::Closed(reason) => r matches Err(why) && why@
                == "rust-analyzer did not initialize: "@ + reason@,
        },
{
    match waited {
        Waited::Event(LspEvent::Ready) => Ok(true),
        Waited::Event(LspEvent::Error(message)) => Err(message),
        Waited::Event(_) => Ok(false),
        Waited::TimeOver => Err("rust-analyzer did not initialize before timeout".to_string()),
        Waited::Closed(reason) => Err(
            concat2("rust-analyzer did not initialize: ", reason.as_str()),
        ),
    }
}

} // verus!
