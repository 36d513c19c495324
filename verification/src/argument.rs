//! The arguments of an encoder command, and their resolution into the
//! literal tokens that the encoder is started with.
//!
//! Resolution inspects nothing itself: whether a path exists is told to it.

use vstd::prelude::*;
use vstd::std_specs::cmp::PartialEqSpecImpl;
use vstd::utf8::{decode_utf8, valid_utf8};

verus! {

/// `tokio::fs::File`: an open file. Nothing is said of what it holds.
#[verifier::external_type_specification]
#[verifier::external_body]
pub struct ExTokioFile(tokio::fs::File);

/// `std::str::Utf8Error`: why bytes are no text. Nothing is said of what it
/// holds.
#[verifier::external_type_specification]
#[verifier::external_body]
pub struct ExUtf8Error(std::str::Utf8Error);

/// Checks and borrows `bytes` as text with `std::str::from_utf8`.
///
/// Trusted: it succeeds exactly on valid UTF-8, and then the text is the
/// decoding of the bytes.
#[verifier::external_body]
fn text_of_bytes(bytes: &Vec<u8>) -> (text: Result<&str, std::str::Utf8Error>)
    ensures
        text is Ok <==> valid_utf8(bytes@),
        text matches Ok(s) ==> s@ == decode_utf8(bytes@),
{
    std::str::from_utf8(bytes)
}

/// A path, as the bytes in which the operating system spells it.
#[derive(Debug, PartialEq, Eq, Hash)]
pub struct FilePath {
    pub bytes: Vec<u8>,
}

impl View for FilePath {
    type V = Seq<u8>;

    open spec fn view(&self) -> Seq<u8> {
        self.bytes@
    }
}

impl Clone for FilePath {
    fn clone(&self) -> (copy: FilePath)
        ensures
            copy@ == self@,
    {
        FilePath { bytes: self.bytes.clone() }
    }
}

/// The text of a path: its decoding where the path is valid UTF-8.
pub open spec fn path_text(path: Seq<u8>) -> Option<Seq<char>> {
    if valid_utf8(path) {
        Some(decode_utf8(path))
    } else {
        None
    }
}

impl FilePath {
    /// The path spelled by `bytes`.
    pub fn from_bytes(bytes: Vec<u8>) -> (path: FilePath)
        ensures
            path@ == bytes@,
    {
        FilePath { bytes }
    }

    /// Whether two paths are spelled alike.
    pub fn same_as(&self, other: &FilePath) -> (yes: bool)
        ensures
            yes == (self@ == other@),
    {
        if self.bytes.len() != other.bytes.len() {
            return false;
        }
        let mut i: usize = 0;
        while i < self.bytes.len()
            invariant
                self.bytes.len() == other.bytes.len(),
                i <= self.bytes.len(),
                forall|j: int| 0 <= j < i ==> self.bytes@[j] == other.bytes@[j],
            decreases self.bytes.len() - i,
        {
            if self.bytes[i] != other.bytes[i] {
                return false;
            }
            i = i + 1;
        }
        proof {
            assert(self@ =~= other@);
        }
        true
    }

    /// The path as text, where it can be written as text.
    pub fn to_text(&self) -> (text: Option<String>)
        ensures
            text.deep_view() == path_text(self@),
    {
        match text_of_bytes(&self.bytes) {
            Ok(s) => Some(s.to_owned()),
            Err(_) => None,
        }
    }
}

/// Whether two texts are alike.
fn same_text(a: &String, b: &String) -> (yes: bool)
    ensures
        yes == (a@ == b@),
{
    *a == *b
}

/// Whether two optional paths are both absent or spelled alike.
fn same_optional_path(a: &Option<FilePath>, b: &Option<FilePath>) -> (yes: bool)
    ensures
        yes == (optional_path_view(*a) == optional_path_view(*b)),
{
    match (a, b) {
        (Some(x), Some(y)) => x.same_as(y),
        (None, None) => true,
        _ => false,
    }
}

/// The view of an optional path.
pub open spec fn optional_path_view(path: Option<FilePath>) -> Option<Seq<u8>> {
    match path {
        Some(p) => Some(p@),
        None => None,
    }
}

/// Where an encoder writes.
///
/// - `Closed`: the output is set, and no encode has started on it.
/// - `Open`: an encode is running. The file is open, and is closed when this
///   value goes out of scope.
/// - `Empty`: no output is set; this is also what a copy of the other two
///   is. It remembers the last path.
#[derive(Debug)]
pub enum OutputFile {
    Empty(Option<FilePath>),
    Closed(FilePath),
    Open(tokio::fs::File),
}

/// An output without the open file itself.
pub enum OutputFileView {
    Empty(Option<Seq<u8>>),
    Closed(Seq<u8>),
    Open,
}

impl View for OutputFile {
    type V = OutputFileView;

    open spec fn view(&self) -> OutputFileView {
        match self {
            OutputFile::Empty(last) => OutputFileView::Empty(optional_path_view(*last)),
            OutputFile::Closed(path) => OutputFileView::Closed(path@),
            OutputFile::Open(_) => OutputFileView::Open,
        }
    }
}

/// What a copy of an output is: never open, and never set. A closed output
/// leaves its path behind as the last path; an open one leaves nothing.
pub open spec fn duplicate(output: OutputFileView) -> OutputFileView {
    match output {
        OutputFileView::Empty(last) => OutputFileView::Empty(last),
        OutputFileView::Closed(path) => OutputFileView::Empty(Some(path)),
        OutputFileView::Open => OutputFileView::Empty(None),
    }
}

/// When two outputs are equal: both empty with the same last path, or both
/// closed on the same path. An open output equals nothing, not even itself.
pub open spec fn same_output(a: OutputFileView, b: OutputFileView) -> bool {
    match (a, b) {
        (OutputFileView::Empty(x), OutputFileView::Empty(y)) => x == y,
        (OutputFileView::Closed(x), OutputFileView::Closed(y)) => x == y,
        _ => false,
    }
}

impl PartialEq for OutputFile {
    fn eq(&self, other: &OutputFile) -> (yes: bool) {
        match (self, other) {
            (OutputFile::Empty(a), OutputFile::Empty(b)) => same_optional_path(a, b),
            (OutputFile::Closed(a), OutputFile::Closed(b)) => a.same_as(b),
            _ => false,
        }
    }
}

impl PartialEqSpecImpl for OutputFile {
    open spec fn obeys_eq_spec() -> bool {
        true
    }

    open spec fn eq_spec(&self, other: &OutputFile) -> bool {
        same_output(self@, other@)
    }
}

impl Clone for OutputFile {
    fn clone(&self) -> (copy: OutputFile)
        ensures
            copy@ == duplicate(self@),
    {
        match self {
            OutputFile::Closed(path) => OutputFile::Empty(Some(path.clone())),
            OutputFile::Open(_) => OutputFile::Empty(None),
            OutputFile::Empty(last) => match last {
                Some(path) => OutputFile::Empty(Some(path.clone())),
                None => OutputFile::Empty(None),
            },
        }
    }
}

/// One argument of an encoder command.
#[derive(Debug)]
pub enum Argument {
    InputFile(FilePath),
    OutputFile(OutputFile),
    Flag(String),
    Parameter { key: String, val: String },
}

/// An argument without the open file itself.
pub enum ArgumentView {
    InputFile(Seq<u8>),
    OutputFile(OutputFileView),
    Flag(Seq<char>),
    Parameter { key: Seq<char>, val: Seq<char> },
}

impl View for Argument {
    type V = ArgumentView;

    open spec fn view(&self) -> ArgumentView {
        match self {
            Argument::InputFile(path) => ArgumentView::InputFile(path@),
            Argument::OutputFile(output) => ArgumentView::OutputFile(output@),
            Argument::Flag(flag) => ArgumentView::Flag(flag@),
            Argument::Parameter { key, val } => ArgumentView::Parameter { key: key@, val: val@ },
        }
    }
}

/// What a copy of an argument is: the argument itself, but for an output,
/// which is duplicated.
pub open spec fn duplicate_argument(arg: ArgumentView) -> ArgumentView {
    match arg {
        ArgumentView::OutputFile(output) => ArgumentView::OutputFile(duplicate(output)),
        other => other,
    }
}

/// When two arguments are equal: alike in kind and content, the outputs
/// compared as outputs are.
pub open spec fn same_argument(a: ArgumentView, b: ArgumentView) -> bool {
    match (a, b) {
        (ArgumentView::InputFile(x), ArgumentView::InputFile(y)) => x == y,
        (ArgumentView::OutputFile(x), ArgumentView::OutputFile(y)) => same_output(x, y),
        (ArgumentView::Flag(x), ArgumentView::Flag(y)) => x == y,
        (
            ArgumentView::Parameter { key: k1, val: v1 },
            ArgumentView::Parameter { key: k2, val: v2 },
        ) => k1 == k2 && v1 == v2,
        _ => false,
    }
}

impl Clone for Argument {
    fn clone(&self) -> (copy: Argument)
        ensures
            copy@ == duplicate_argument(self@),
    {
        match self {
            Argument::InputFile(path) => Argument::InputFile(path.clone()),
            Argument::OutputFile(output) => Argument::OutputFile(output.clone()),
            Argument::Flag(flag) => Argument::Flag(flag.clone()),
            Argument::Parameter { key, val } => Argument::Parameter {
                key: key.clone(),
                val: val.clone(),
            },
        }
    }
}

impl PartialEq for Argument {
    fn eq(&self, other: &Argument) -> (yes: bool) {
        match (self, other) {
            (Argument::InputFile(a), Argument::InputFile(b)) => a.same_as(b),
            (Argument::OutputFile(a), Argument::OutputFile(b)) => a.eq(b),
            (Argument::Flag(a), Argument::Flag(b)) => same_text(a, b),
            (
                Argument::Parameter { key: k1, val: v1 },
                Argument::Parameter { key: k2, val: v2 },
            ) => same_text(k1, k2) && same_text(v1, v2),
            _ => false,
        }
    }
}

impl PartialEqSpecImpl for Argument {
    open spec fn obeys_eq_spec() -> bool {
        true
    }

    open spec fn eq_spec(&self, other: &Argument) -> bool {
        same_argument(self@, other@)
    }
}

/// Why an argument cannot be handed to an encoder.
#[derive(Debug, PartialEq)]
pub enum IntoStringError {
    /// An output is not set. Holds the output's last path.
    OutputNotSet(Option<FilePath>),
    /// A path cannot be written as text.
    PathHasNonUnicode(FilePath),
    /// An output is open: the encode has already been started.
    EncodeAlreadyRunning,
    /// An input file does not exist.
    NonExistingInput(FilePath),
    /// An output file exists already.
    OutputExists(FilePath),
}

/// An error over the views of its paths.
pub enum IntoStringErrorView {
    OutputNotSet(Option<Seq<u8>>),
    PathHasNonUnicode(Seq<u8>),
    EncodeAlreadyRunning,
    NonExistingInput(Seq<u8>),
    OutputExists(Seq<u8>),
}

impl View for IntoStringError {
    type V = IntoStringErrorView;

    open spec fn view(&self) -> IntoStringErrorView {
        match self {
            IntoStringError::OutputNotSet(last) => IntoStringErrorView::OutputNotSet(
                optional_path_view(*last),
            ),
            IntoStringError::PathHasNonUnicode(path) => IntoStringErrorView::PathHasNonUnicode(
                path@,
            ),
            IntoStringError::EncodeAlreadyRunning => IntoStringErrorView::EncodeAlreadyRunning,
            IntoStringError::NonExistingInput(path) => IntoStringErrorView::NonExistingInput(path@),
            IntoStringError::OutputExists(path) => IntoStringErrorView::OutputExists(path@),
        }
    }
}

/// The tokens of a path that is used as it is written.
pub open spec fn path_tokens(path: Seq<u8>, before: Seq<Seq<char>>) -> Result<
    Seq<Seq<char>>,
    IntoStringErrorView,
> {
    match path_text(path) {
        Some(text) => Ok(before.push(text)),
        None => Err(IntoStringErrorView::PathHasNonUnicode(path)),
    }
}

/// The tokens that `arg` resolves to, or why it does not resolve, where
/// `exists` tells whether something exists at the path that `arg` names.
///
/// - An input must exist, and gives `-i` and its path.
/// - An output must be closed on a path at which nothing exists yet, and
///   gives that path.
/// - A flag gives itself, a parameter its key and its value.
pub open spec fn resolved(arg: ArgumentView, exists: bool) -> Result<
    Seq<Seq<char>>,
    IntoStringErrorView,
> {
    match arg {
        ArgumentView::InputFile(path) => if exists {
            path_tokens(path, seq!["-i"@])
        } else {
            Err(IntoStringErrorView::NonExistingInput(path))
        },
        ArgumentView::OutputFile(OutputFileView::Empty(last)) => Err(
            IntoStringErrorView::OutputNotSet(last),
        ),
        ArgumentView::OutputFile(OutputFileView::Closed(path)) => if exists {
            Err(IntoStringErrorView::OutputExists(path))
        } else {
            path_tokens(path, Seq::empty())
        },
        ArgumentView::OutputFile(OutputFileView::Open) => Err(
            IntoStringErrorView::EncodeAlreadyRunning,
        ),
        ArgumentView::Flag(flag) => Ok(seq![flag]),
        ArgumentView::Parameter { key, val } => Ok(seq![key, val]),
    }
}

/// The path whose presence decides how `arg` resolves, where there is one.
pub open spec fn probed_path(arg: ArgumentView) -> Option<Seq<u8>> {
    match arg {
        ArgumentView::InputFile(path) => Some(path),
        ArgumentView::OutputFile(OutputFileView::Closed(path)) => Some(path),
        _ => None,
    }
}

/// Whether `path` is one of `existing`.
pub open spec fn listed(existing: Seq<FilePath>, path: Seq<u8>) -> bool {
    exists|i: int| 0 <= i < existing.len() && (#[trigger] existing[i])@ == path
}

/// Whether something exists at the path that `arg` names, where `existing`
/// lists the paths at which something exists.
pub open spec fn present(arg: ArgumentView, existing: Seq<FilePath>) -> bool {
    match probed_path(arg) {
        Some(path) => listed(existing, path),
        None => false,
    }
}

/// The tokens that a list of arguments resolves to, in the order of the
/// arguments, or why the first argument that does not resolve does not.
pub open spec fn resolved_all(args: Seq<ArgumentView>, existing: Seq<FilePath>) -> Result<
    Seq<Seq<char>>,
    IntoStringErrorView,
>
    decreases args.len(),
{
    if args.len() == 0 {
        Ok(Seq::empty())
    } else {
        match resolved_all(args.drop_last(), existing) {
            Err(e) => Err(e),
            Ok(tokens) => match resolved(args.last(), present(args.last(), existing)) {
                Err(e) => Err(e),
                Ok(more) => Ok(tokens + more),
            },
        }
    }
}

/// The views of a list of arguments.
pub open spec fn argument_views(args: Seq<Argument>) -> Seq<ArgumentView> {
    Seq::new(args.len(), |i: int| args[i]@)
}

/// Whether `path` is one of `existing`.
pub fn is_listed(existing: &Vec<FilePath>, path: &FilePath) -> (yes: bool)
    ensures
        yes == listed(existing@, path@),
{
    let mut i: usize = 0;
    while i < existing.len()
        invariant
            i <= existing.len(),
            forall|j: int| 0 <= j < i ==> (#[trigger] existing@[j])@ != path@,
        decreases existing.len() - i,
    {
        if existing[i].same_as(path) {
            return true;
        }
        i = i + 1;
    }
    false
}

impl Argument {
    /// The path whose presence decides how this argument resolves.
    pub fn path_to_probe(&self) -> (path: Option<&FilePath>)
        ensures
            match path {
                Some(p) => probed_path(self@) == Some(p@),
                None => probed_path(self@) is None,
            },
    {
        match self {
            Argument::InputFile(path) => Some(path),
            Argument::OutputFile(OutputFile::Closed(path)) => Some(path),
            _ => None,
        }
    }

    /// Resolves this argument into tokens without consuming it.
    pub fn resolve(&self, exists: bool) -> (r: Result<Vec<String>, IntoStringError>)
        ensures
            match r {
                Ok(tokens) => resolved(self@, exists) == Ok::<_, IntoStringErrorView>(
                    tokens.deep_view(),
                ),
                Err(e) => resolved(self@, exists) == Err::<Seq<Seq<char>>, _>(e@),
            },
    {
        match self {
            Argument::InputFile(input) => {
                if exists {
                    match input.to_text() {
                        Some(text) => {
                            let mut tokens: Vec<String> = Vec::new();
                            tokens.push("-i".to_owned());
                            tokens.push(text);
                            proof {
                                assert(tokens.deep_view() =~= seq!["-i"@].push(text@));
                            }
                            Ok(tokens)
                        },
                        None => Err(IntoStringError::PathHasNonUnicode(input.clone())),
                    }
                } else {
                    Err(IntoStringError::NonExistingInput(input.clone()))
                }
            },
            Argument::OutputFile(output) => match output {
                OutputFile::Empty(last) => match last {
                    Some(path) => Err(IntoStringError::OutputNotSet(Some(path.clone()))),
                    None => Err(IntoStringError::OutputNotSet(None)),
                },
                OutputFile::Closed(path) => {
                    if exists {
                        Err(IntoStringError::OutputExists(path.clone()))
                    } else {
                        match path.to_text() {
                            Some(text) => {
                                let mut tokens: Vec<String> = Vec::new();
                                tokens.push(text);
                                proof {
                                    assert(tokens.deep_view() =~= Seq::<Seq<char>>::empty().push(
                                        text@,
                                    ));
                                }
                                Ok(tokens)
                            },
                            None => Err(IntoStringError::PathHasNonUnicode(path.clone())),
                        }
                    }
                },
                OutputFile::Open(_) => Err(IntoStringError::EncodeAlreadyRunning),
            },
            Argument::Flag(flag) => {
                let mut tokens: Vec<String> = Vec::new();
                tokens.push(flag.clone());
                proof {
                    assert(tokens.deep_view() =~= seq![flag@]);
                }
                Ok(tokens)
            },
            Argument::Parameter { key, val } => {
                let mut tokens: Vec<String> = Vec::new();
                tokens.push(key.clone());
                tokens.push(val.clone());
                proof {
                    assert(tokens.deep_view() =~= seq![key@, val@]);
                }
                Ok(tokens)
            },
        }
    }

    /// Resolves this argument into the tokens that stand for it on the
    /// encoder's command line, given whether something exists at its path.
    ///
    /// It fails on an input that does not exist, an output that is not set,
    /// is open or exists already, and a path that cannot be written as text.
    pub fn try_into_string(self, exists: bool) -> (r: Result<Vec<String>, IntoStringError>)
        ensures
            match r {
                Ok(tokens) => resolved(self@, exists) == Ok::<_, IntoStringErrorView>(
                    tokens.deep_view(),
                ),
                Err(e) => resolved(self@, exists) == Err::<Seq<Seq<char>>, _>(e@),
            },
    {
        self.resolve(exists)
    }

    /// Resolves a list of arguments into one list of tokens, in the order of
    /// the arguments, given the paths at which something exists.
    ///
    /// Every argument is checked, and the first that does not resolve fails
    /// the whole list: no token is handed out then.
    pub fn try_vec_into_strings(args: Vec<Argument>, existing: &Vec<FilePath>) -> (r: Result<
        Vec<String>,
        IntoStringError,
    >)
        ensures
            match r {
                Ok(tokens) => resolved_all(argument_views(args@), existing@) == Ok::<
                    _,
                    IntoStringErrorView,
                >(tokens.deep_view()),
                Err(e) => resolved_all(argument_views(args@), existing@) == Err::<
                    Seq<Seq<char>>,
                    _,
                >(e@),
            },
    {
        let ghost views = argument_views(args@);
        let mut tokens: Vec<String> = Vec::new();
        let mut i: usize = 0;
        proof {
            assert(views.take(0) =~= Seq::<ArgumentView>::empty());
            assert(tokens.deep_view() =~= Seq::<Seq<char>>::empty());
        }
        while i < args.len()
            invariant
                i <= args.len(),
                views == argument_views(args@),
                resolved_all(views.take(i as int), existing@) == Ok::<_, IntoStringErrorView>(
                    tokens.deep_view(),
                ),
            decreases args.len() - i,
        {
            let arg = &args[i];
            let exists = match arg.path_to_probe() {
                Some(path) => is_listed(existing, path),
                None => false,
            };
            proof {
                assert(views.take(i + 1).drop_last() =~= views.take(i as int));
                assert(views.take(i + 1).last() == arg@);
            }
            match arg.resolve(exists) {
                Err(e) => {
                    proof {
                        lemma_failure_stays(views, existing@, i + 1);
                    }
                    return Err(e);
                },
                Ok(more) => {
                    let ghost before = tokens.deep_view();
                    let ghost added = more.deep_view();
                    let mut more = more;
                    tokens.append(&mut more);
                    proof {
                        assert(tokens.deep_view() =~= before + added);
                    }
                },
            }
            i = i + 1;
        }
        proof {
            assert(views.take(i as int) =~= views);
        }
        Ok(tokens)
    }
}

/// Once a part of a list fails to resolve, the whole list fails, and for the
/// same reason.
pub proof fn lemma_failure_stays(args: Seq<ArgumentView>, existing: Seq<FilePath>, k: int)
    requires
        0 <= k <= args.len(),
        resolved_all(args.take(k), existing) is Err,
    ensures
        resolved_all(args, existing) == resolved_all(args.take(k), existing),
    decreases args.len() - k,
{
    if k == args.len() {
        assert(args.take(k) =~= args);
    } else {
        assert(args.take(k + 1).drop_last() =~= args.take(k));
        lemma_failure_stays(args, existing, k + 1);
    }
}

/// A list that holds an input at whose path nothing exists does not resolve:
/// no token comes of it. Where all before that input resolve, the failure
/// is that the input does not exist.
pub proof fn lemma_missing_input_fails(args: Seq<ArgumentView>, existing: Seq<FilePath>, k: int)
    requires
        0 <= k < args.len(),
        args[k] is InputFile,
        !listed(existing, args[k]->InputFile_0),
    ensures
        resolved_all(args, existing) is Err,
        resolved_all(args.take(k), existing) is Ok ==> resolved_all(args, existing) == Err::<
            Seq<Seq<char>>,
            _,
        >(IntoStringErrorView::NonExistingInput(args[k]->InputFile_0)),
{
    assert(args.take(k + 1).drop_last() =~= args.take(k));
    assert(args.take(k + 1).last() == args[k]);
    lemma_failure_stays(args, existing, k + 1);
}

} // verus!
