//! The scan of one package directory: its two declaration files are read
//! and parsed into one context, the primary file first, and the context is
//! validated as a package.
//!
//! The scan reads no file and runs neither parser nor validator. It is a
//! machine that says what is to be done next and is handed what came of it.

use vstd::prelude::*;
use crate::context::Context;
use crate::db::abbs::{diagnostics, Diagnostic, ErrorType, PackageError};
use crate::layout::{package_dir, package_dir_of, package_name, package_name_of};
use crate::text::{option_view, views};

verus! {

/// The key under which a primary file may declare the version.
pub open spec fn legacy_version_key() -> Seq<char> {
    seq!['V', 'E', 'R']
}

/// The key under which a primary file may declare the release.
pub open spec fn legacy_release_key() -> Seq<char> {
    seq!['R', 'E', 'L']
}

/// The key that holds a package's version.
pub open spec fn version_key() -> Seq<char> {
    seq!['P', 'K', 'G', 'V', 'E', 'R']
}

/// The key that holds a package's release.
pub open spec fn release_key() -> Seq<char> {
    seq!['P', 'K', 'G', 'R', 'E', 'L']
}

/// `c` with the declaration of `from`, if there is one, moved to `to`.
pub open spec fn renamed(
    c: Map<Seq<char>, Seq<char>>,
    from: Seq<char>,
    to: Seq<char>,
) -> Map<Seq<char>, Seq<char>> {
    if c.contains_key(from) {
        c.remove(from).insert(to, c[from])
    } else {
        c
    }
}

/// `c` as the secondary file is to see it: the legacy keys of the primary
/// file moved to the keys that hold version and release.
pub open spec fn decorated(c: Map<Seq<char>, Seq<char>>) -> Map<Seq<char>, Seq<char>> {
    renamed(
        renamed(c, legacy_version_key(), version_key()),
        legacy_release_key(),
        release_key(),
    )
}

/// Moves the declarations under the legacy keys of a primary file to the
/// keys that hold version and release, so that the secondary file finds
/// them there.
pub fn spec_decorator(c: &mut Context)
    ensures
        final(c)@ == decorated(old(c)@),
{
    proof {
        reveal_strlit("VER");
        reveal_strlit("PKGVER");
        reveal_strlit("REL");
        reveal_strlit("PKGREL");
    }
    assert("VER"@ == legacy_version_key());
    assert("PKGVER"@ == version_key());
    assert("REL"@ == legacy_release_key());
    assert("PKGREL"@ == release_key());
    if let Some(ver) = c.remove("VER") {
        c.insert("PKGVER".to_owned(), ver);
    }
    if let Some(rel) = c.remove("REL") {
        c.insert("PKGREL".to_owned(), rel);
    }
}

/// What a legacy key held is found under the key it was moved to, the
/// legacy keys are gone, and no other key is touched.
pub proof fn lemma_decorated(c: Map<Seq<char>, Seq<char>>)
    ensures
        !decorated(c).contains_key(legacy_version_key()),
        !decorated(c).contains_key(legacy_release_key()),
        c.contains_key(legacy_version_key()) ==> decorated(c).contains_key(version_key())
            && decorated(c)[version_key()] == c[legacy_version_key()],
        c.contains_key(legacy_release_key()) ==> decorated(c).contains_key(release_key())
            && decorated(c)[release_key()] == c[legacy_release_key()],
        forall|k: Seq<char>|
            k != legacy_version_key() && k != legacy_release_key() && k != version_key() && k
                != release_key() ==> (decorated(c).contains_key(k) == c.contains_key(k))
                && decorated(c)[k] == c[k],
{
    assert(legacy_version_key().len() != version_key().len());
    assert(legacy_release_key().len() != release_key().len());
    assert(legacy_version_key()[0] != legacy_release_key()[0]);
    assert(version_key()[3] != release_key()[3]);
}

/// Renaming the legacy keys a second time changes nothing.
pub proof fn lemma_decorated_twice(c: Map<Seq<char>, Seq<char>>)
    ensures
        decorated(decorated(c)) == decorated(c),
{
    lemma_decorated(c);
}

/// Where the scan of one package directory stands.
///
/// The scan itself reads no file and calls neither the parser nor the
/// validator: it says what is to be done next and takes what came of it.
#[derive(Debug)]
pub enum ScanState {
    /// The two declaration files are being read.
    Reading { spec_path: String, defines_path: String },
    /// The primary file is at the parser.
    ParsingSpec { name: String, spec_path: String, defines_path: String, defines: String },
    /// The secondary file is at the parser.
    ParsingDefines {
        name: String,
        spec_path: String,
        defines_path: String,
        errors: Vec<PackageError>,
    },
    /// The merged declarations are at the validator.
    Materializing { defines_path: String, errors: Vec<PackageError>, context: Context },
    /// The directory is done with.
    Finished,
}

/// What came of the step that a scan asked for.
#[derive(Debug)]
pub enum ScanEvent<P> {
    /// The contents of the two files; `None` for one that cannot be read.
    Contents { spec: Option<String>, defines: Option<String> },
    /// The parser has run: the context as it left it, and its complaints.
    Parsed { context: Context, errors: Vec<String> },
    /// The validator has run: the package, or the validator's complaint.
    Materialized { outcome: Result<P, String> },
}

/// What a scan asks for next.
#[derive(Debug)]
pub enum ScanAction<P> {
    /// Read the two declaration files.
    Read { spec_path: String, defines_path: String },
    /// Parse `text` into `context`.
    Parse { text: String, context: Context },
    /// Validate `context` as the package declared at `origin`. The scan
    /// keeps the context; this one is a copy.
    Materialize { context: Context, origin: String },
    /// Nothing: the directory has given `package`, if any, and `errors`.
    Done { package: Option<(P, Context)>, errors: Vec<PackageError> },
}

/// A state of a scan as plain text.
pub enum StateModel {
    Reading { spec_path: Seq<char>, defines_path: Seq<char> },
    ParsingSpec { name: Seq<char>, spec_path: Seq<char>, defines_path: Seq<char>, defines: Seq<char> },
    ParsingDefines {
        name: Seq<char>,
        spec_path: Seq<char>,
        defines_path: Seq<char>,
        errors: Seq<Diagnostic>,
    },
    Materializing {
        defines_path: Seq<char>,
        errors: Seq<Diagnostic>,
        context: Map<Seq<char>, Seq<char>>,
    },
    Finished,
}

/// An event of a scan as plain text.
pub enum EventModel<P> {
    Contents { spec: Option<Seq<char>>, defines: Option<Seq<char>> },
    Parsed { context: Map<Seq<char>, Seq<char>>, errors: Seq<Seq<char>> },
    Materialized { outcome: Result<P, Seq<char>> },
}

/// An action of a scan as plain text.
pub enum ActionModel<P> {
    Read { spec_path: Seq<char>, defines_path: Seq<char> },
    Parse { text: Seq<char>, context: Map<Seq<char>, Seq<char>> },
    Materialize { context: Map<Seq<char>, Seq<char>>, origin: Seq<char> },
    Done { package: Option<(P, Map<Seq<char>, Seq<char>>)>, errors: Seq<Diagnostic> },
}

impl View for ScanState {
    type V = StateModel;

    open spec fn view(&self) -> StateModel {
        match *self {
            ScanState::Reading { spec_path, defines_path } => StateModel::Reading {
                spec_path: spec_path@,
                defines_path: defines_path@,
            },
            ScanState::ParsingSpec { name, spec_path, defines_path, defines } => StateModel::ParsingSpec {
                name: name@,
                spec_path: spec_path@,
                defines_path: defines_path@,
                defines: defines@,
            },
            ScanState::ParsingDefines { name, spec_path, defines_path, errors } => StateModel::ParsingDefines {
                name: name@,
                spec_path: spec_path@,
                defines_path: defines_path@,
                errors: diagnostics(errors@),
            },
            ScanState::Materializing { defines_path, errors, context } => StateModel::Materializing {
                defines_path: defines_path@,
                errors: diagnostics(errors@),
                context: context@,
            },
            ScanState::Finished => StateModel::Finished,
        }
    }
}

impl<P> View for ScanEvent<P> {
    type V = EventModel<P>;

    open spec fn view(&self) -> EventModel<P> {
        match *self {
            ScanEvent::Contents { spec, defines } => EventModel::Contents {
                spec: option_view(spec),
                defines: option_view(defines),
            },
            ScanEvent::Parsed { context, errors } => EventModel::Parsed {
                context: context@,
                errors: views(errors@),
            },
            ScanEvent::Materialized { outcome } => EventModel::Materialized {
                outcome: match outcome {
                    Ok(package) => Ok(package),
                    Err(message) => Err(message@),
                },
            },
        }
    }
}

impl<P> View for ScanAction<P> {
    type V = ActionModel<P>;

    open spec fn view(&self) -> ActionModel<P> {
        match *self {
            ScanAction::Read { spec_path, defines_path } => ActionModel::Read {
                spec_path: spec_path@,
                defines_path: defines_path@,
            },
            ScanAction::Parse { text, context } => ActionModel::Parse {
                text: text@,
                context: context@,
            },
            ScanAction::Materialize { context, origin } => ActionModel::Materialize {
                context: context@,
                origin: origin@,
            },
            ScanAction::Done { package, errors } => ActionModel::Done {
                package: match package {
                    Some((record, context)) => Some((record, context@)),
                    None => None,
                },
                errors: diagnostics(errors@),
            },
        }
    }
}

/// One diagnostic for each complaint of the parser about the file at `path`
/// of the package `name`, in the parser's order.
pub open spec fn parse_diagnostics(
    name: Seq<char>,
    path: Seq<char>,
    messages: Seq<Seq<char>>,
) -> Seq<Diagnostic> {
    Seq::new(
        messages.len(),
        |i: int|
            Diagnostic { package: name, path: path, message: messages[i], kind: ErrorType::Parse },
    )
}

/// The end of a scan that gives nothing: no package and no diagnostic.
pub open spec fn skipped<P>() -> (StateModel, ActionModel<P>) {
    (StateModel::Finished, ActionModel::Done { package: None, errors: Seq::empty() })
}

/// How a scan goes on while the declaration files are read and parsed.
///
/// Once both files are read, the primary file is parsed into an empty
/// context. What the parser leaves of it, whatever it complained of, has its
/// legacy keys renamed and is the context into which the secondary file is
/// parsed. What the parser leaves of that goes to the validator. Each
/// complaint becomes a diagnostic against the file it is about. A directory
/// of which a file cannot be read, or whose path is too shallow to name a
/// package, is skipped; so is a scan that is handed an event it did not ask
/// for.
pub open spec fn parse_step<P>(state: StateModel, event: EventModel<P>) -> (
    StateModel,
    ActionModel<P>,
) {
    match (state, event) {
        (
            StateModel::Reading { spec_path, defines_path },
            EventModel::Contents { spec: Some(spec), defines: Some(defines) },
        ) => match package_name_of(defines_path) {
            Some(name) => (
                StateModel::ParsingSpec { name, spec_path, defines_path, defines },
                ActionModel::Parse { text: spec, context: Map::empty() },
            ),
            None => skipped(),
        },
        (
            StateModel::ParsingSpec { name, spec_path, defines_path, defines },
            EventModel::Parsed { context, errors },
        ) => (
            StateModel::ParsingDefines {
                name,
                spec_path,
                defines_path,
                errors: parse_diagnostics(name, spec_path, errors),
            },
            ActionModel::Parse { text: defines, context: decorated(context) },
        ),
        (
            StateModel::ParsingDefines { name, spec_path, defines_path, errors: earlier },
            EventModel::Parsed { context, errors },
        ) => (
            StateModel::Materializing {
                defines_path,
                errors: earlier + parse_diagnostics(name, defines_path, errors),
                context,
            },
            ActionModel::Materialize { context, origin: spec_path },
        ),
        _ => skipped(),
    }
}

/// What a directory gives once the validator has judged its declarations.
///
/// A package comes with its context and the diagnostics gathered so far. A
/// complaint becomes one more diagnostic, against the package's directory;
/// where the path is too shallow to name package and directory, the
/// directory gives nothing at all.
pub open spec fn materialized<P>(
    defines_path: Seq<char>,
    errors: Seq<Diagnostic>,
    context: Map<Seq<char>, Seq<char>>,
    outcome: Result<P, Seq<char>>,
) -> ActionModel<P> {
    match outcome {
        Ok(package) => ActionModel::Done { package: Some((package, context)), errors },
        Err(message) => match (package_name_of(defines_path), package_dir_of(defines_path)) {
            (Some(name), Some(dir)) => ActionModel::Done {
                package: None,
                errors: errors.push(
                    Diagnostic { package: name, path: dir, message, kind: ErrorType::Package },
                ),
            },
            _ => ActionModel::Done { package: None, errors: Seq::empty() },
        },
    }
}

/// How a scan goes on: the state it is in next and what it asks for.
pub open spec fn step<P>(state: StateModel, event: EventModel<P>) -> (StateModel, ActionModel<P>) {
    match (state, event) {
        (
            StateModel::Materializing { defines_path, errors, context },
            EventModel::Materialized { outcome },
        ) => (StateModel::Finished, materialized(defines_path, errors, context, outcome)),
        _ => parse_step(state, event),
    }
}

/// The diagnostics for the parser's complaints about one file.
fn parse_errors(name: &str, path: &str, messages: Vec<String>) -> (r: Vec<PackageError>)
    ensures
        diagnostics(r@) == parse_diagnostics(name@, path@, views(messages@)),
{
    broadcast use vstd::std_specs::vec::group_vec_axioms;

    let mut out: Vec<PackageError> = Vec::new();
    let ghost all = messages@;
    for message in iter: messages.into_iter()
        invariant
            iter.seq() == all,
            diagnostics(out@) == parse_diagnostics(name@, path@, views(all.take(iter.index()))),
    {
        let ghost before = out@;
        let error = PackageError {
            package: name.to_owned(),
            path: path.to_owned(),
            message,
            err_type: ErrorType::Parse,
        };
        out.push(error);
        assert(diagnostics(out@) == diagnostics(before).push(error@));
        assert(views(all.take(iter.index() + 1)) == views(all.take(iter.index())).push(
            message@,
        ));
    }
    assert(all.take(all.len() as int) == all);
    out
}

/// The end of a scan that gives nothing.
fn skip<P>() -> (r: (ScanState, ScanAction<P>))
    ensures
        (r.0@, r.1@) == skipped::<P>(),
{
    let errors: Vec<PackageError> = Vec::new();
    assert(diagnostics(errors@) == Seq::<Diagnostic>::empty());
    (ScanState::Finished, ScanAction::Done { package: None, errors })
}

/// Begins the scan of the package directory with the given pair of paths.
pub fn begin_scan<P>(spec_path: &str, defines_path: &str) -> (r: (ScanState, ScanAction<P>))
    ensures
        r.0@ == (StateModel::Reading { spec_path: spec_path@, defines_path: defines_path@ }),
        r.1@ == (ActionModel::<P>::Read { spec_path: spec_path@, defines_path: defines_path@ }),
{
    (
        ScanState::Reading { spec_path: spec_path.to_owned(), defines_path: defines_path.to_owned() },
        ScanAction::Read { spec_path: spec_path.to_owned(), defines_path: defines_path.to_owned() },
    )
}

/// Takes a scan through the reading and parsing of the two declaration
/// files: given the state it is in and what came of the step it asked for,
/// the state it is in next and what it asks for.
pub fn parse_spec_and_defines<P>(state: ScanState, event: ScanEvent<P>) -> (r: (
    ScanState,
    ScanAction<P>,
))
    ensures
        (r.0@, r.1@) == parse_step(state@, event@),
{
    match (state, event) {
        (
            ScanState::Reading { spec_path, defines_path },
            ScanEvent::Contents { spec: Some(spec), defines: Some(defines) },
        ) => {
            match package_name(defines_path.as_str()) {
                Some(name) => (
                    ScanState::ParsingSpec { name, spec_path, defines_path, defines },
                    ScanAction::Parse { text: spec, context: Context::new() },
                ),
                None => skip(),
            }
        },
        (
            ScanState::ParsingSpec { name, spec_path, defines_path, defines },
            ScanEvent::Parsed { context, errors },
        ) => {
            let found = parse_errors(name.as_str(), spec_path.as_str(), errors);
            let mut context = context;
            spec_decorator(&mut context);
            (
                ScanState::ParsingDefines { name, spec_path, defines_path, errors: found },
                ScanAction::Parse { text: defines, context },
            )
        },
        (
            ScanState::ParsingDefines { name, spec_path, defines_path, errors: earlier },
            ScanEvent::Parsed { context, errors },
        ) => {
            let mut all = earlier;
            let mut found = parse_errors(name.as_str(), defines_path.as_str(), errors);
            let ghost first = all@;
            let ghost second = found@;
            all.append(&mut found);
            assert(diagnostics(all@) == diagnostics(first) + diagnostics(second));
            let handed = context.copy();
            (
                ScanState::Materializing { defines_path, errors: all, context },
                ScanAction::Materialize { context: handed, origin: spec_path },
            )
        },
        _ => skip(),
    }
}

/// Takes the scan of one package directory one step further: given the
/// state it is in and what came of the step it asked for, the state it is in
/// next and what it asks for.
///
/// A scan begun with `begin_scan` asks in turn for the two files to be read,
/// for each to be parsed, and for the merged context to be validated; it
/// ends with `ScanAction::Done`.
pub fn scan_package<P>(state: ScanState, event: ScanEvent<P>) -> (r: (ScanState, ScanAction<P>))
    ensures
        (r.0@, r.1@) == step(state@, event@),
{
    match (state, event) {
        (
            ScanState::Materializing { defines_path, errors, context },
            ScanEvent::Materialized { outcome },
        ) => {
            let action = match outcome {
                Ok(package) => ScanAction::Done { package: Some((package, context)), errors },
                Err(message) => {
                    match (package_name(defines_path.as_str()), package_dir(defines_path.as_str())) {
                        (Some(name), Some(dir)) => {
                            let mut errors = errors;
                            let ghost before = errors@;
                            let error = PackageError {
                                package: name,
                                path: dir,
                                message,
                                err_type: ErrorType::Package,
                            };
                            errors.push(error);
                            assert(diagnostics(errors@) == diagnostics(before).push(error@));
                            ScanAction::Done { package: None, errors }
                        },
                        _ => {
                            let none: Vec<PackageError> = Vec::new();
                            assert(diagnostics(none@) == Seq::<Diagnostic>::empty());
                            ScanAction::Done { package: None, errors: none }
                        },
                    }
                },
            };
            (ScanState::Finished, action)
        },
        (state, event) => parse_spec_and_defines(state, event),
    }
}

/// Where a scan stands, and what it has asked for, after it has been begun
/// for the given pair of paths and handed `events` one after another.
pub open spec fn run<P>(spec_path: Seq<char>, defines_path: Seq<char>, events: Seq<EventModel<P>>) -> (
    StateModel,
    ActionModel<P>,
)
    decreases events.len(),
{
    if events.len() == 0 {
        (
            StateModel::Reading { spec_path, defines_path },
            ActionModel::Read { spec_path, defines_path },
        )
    } else {
        step(run(spec_path, defines_path, events.drop_last()).0, events.last())
    }
}

/// The secondary file is parsed into the context that the primary file
/// left, with the legacy keys renamed: what the primary file declared under
/// a legacy key, the secondary file finds under the key it was moved to.
pub proof fn lemma_secondary_sees_renamed_keys<P>(
    state: StateModel,
    context: Map<Seq<char>, Seq<char>>,
    errors: Seq<Seq<char>>,
)
    requires
        state is ParsingSpec,
    ensures
        step::<P>(state, EventModel::Parsed { context, errors }).1 is Parse,
        ({
            let seen = step::<P>(state, EventModel::Parsed { context, errors }).1->Parse_context;
            &&& seen == decorated(context)
            &&& context.contains_key(legacy_version_key()) ==> seen.contains_key(version_key())
                && seen[version_key()] == context[legacy_version_key()]
            &&& context.contains_key(legacy_release_key()) ==> seen.contains_key(release_key())
                && seen[release_key()] == context[legacy_release_key()]
        }),
{
    lemma_decorated(context);
}

/// Whatever the parser complained of in the primary file, the secondary
/// file is parsed next, into the context that the primary file left; and
/// whatever it complained of in the secondary file, the merged context goes
/// to the validator.
pub proof fn lemma_parse_failures_do_not_stop<P>(
    state: StateModel,
    context: Map<Seq<char>, Seq<char>>,
    errors: Seq<Seq<char>>,
)
    ensures
        state matches StateModel::ParsingSpec { defines, .. } ==> step::<P>(
            state,
            EventModel::Parsed { context, errors },
        ).1 == (ActionModel::<P>::Parse { text: defines, context: decorated(context) }),
        state matches StateModel::ParsingDefines { spec_path, .. } ==> step::<P>(
            state,
            EventModel::Parsed { context, errors },
        ).1 == (ActionModel::<P>::Materialize { context, origin: spec_path }),
{
}

/// A directory of which a file cannot be read gives nothing: no package and
/// no diagnostic.
pub proof fn lemma_unreadable_gives_nothing<P>(
    state: StateModel,
    spec: Option<Seq<char>>,
    defines: Option<Seq<char>>,
)
    requires
        state is Reading,
        spec is None || defines is None,
    ensures
        step::<P>(state, EventModel::Contents { spec, defines }) == skipped::<P>(),
{
}

/// A directory whose files can be read and whose secondary path is deep
/// enough to name a package gives, once the validator has judged it, either
/// a package or one diagnostic of the validator's complaint, and never
/// both; the parser's complaints about its files are reported either way.
pub proof fn lemma_one_outcome<P>(
    spec_path: Seq<char>,
    defines_path: Seq<char>,
    spec: Seq<char>,
    defines: Seq<char>,
    first: (Map<Seq<char>, Seq<char>>, Seq<Seq<char>>),
    second: (Map<Seq<char>, Seq<char>>, Seq<Seq<char>>),
    outcome: Result<P, Seq<char>>,
)
    requires
        package_name_of(defines_path) is Some,
    ensures
        ({
            let events = seq![
                EventModel::Contents { spec: Some(spec), defines: Some(defines) },
                EventModel::Parsed { context: first.0, errors: first.1 },
                EventModel::Parsed { context: second.0, errors: second.1 },
                EventModel::Materialized { outcome },
            ];
            let name = package_name_of(defines_path)->Some_0;
            let parsing = parse_diagnostics(name, spec_path, first.1) + parse_diagnostics(
                name,
                defines_path,
                second.1,
            );
            let end = run(spec_path, defines_path, events);
            &&& end.0 is Finished
            &&& end.1 is Done
            &&& end.1->Done_package is Some <==> outcome is Ok
            &&& outcome matches Ok(package) ==> end.1->Done_package == Some((package, second.0))
                && end.1->Done_errors == parsing
            &&& outcome matches Err(message) ==> end.1->Done_errors == parsing.push(
                Diagnostic {
                    package: name,
                    path: package_dir_of(defines_path)->Some_0,
                    message,
                    kind: ErrorType::Package,
                },
            )
        }),
{
    let e0 = EventModel::<P>::Contents { spec: Some(spec), defines: Some(defines) };
    let e1 = EventModel::<P>::Parsed { context: first.0, errors: first.1 };
    let e2 = EventModel::<P>::Parsed { context: second.0, errors: second.1 };
    let e3 = EventModel::<P>::Materialized { outcome };
    let events = seq![e0, e1, e2, e3];
    let none = Seq::<EventModel<P>>::empty();
    assert(events.drop_last() == seq![e0, e1, e2]);
    assert(seq![e0, e1, e2].drop_last() == seq![e0, e1]);
    assert(seq![e0, e1].drop_last() == seq![e0]);
    assert(seq![e0].drop_last() == none);
    let s0 = run(spec_path, defines_path, none);
    let s1 = run(spec_path, defines_path, seq![e0]);
    let s2 = run(spec_path, defines_path, seq![e0, e1]);
    let s3 = run(spec_path, defines_path, seq![e0, e1, e2]);
    assert(s1 == step(s0.0, e0));
    assert(s2 == step(s1.0, e1));
    assert(s3 == step(s2.0, e2));
    assert(run(spec_path, defines_path, events) == step(s3.0, e3));
}

} // verus!
