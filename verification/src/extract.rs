//! Planning the extraction of an archive into a directory.
//!
//! Nothing is written here. The plan lists, entry by entry and in the
//! order of the archive, what the driver is to create. Every path of a plan
//! lies under the destination: an entry whose name starts with `/` or climbs
//! above the destination is refused. Where an entry fails, the plan ends
//! there: what stands before it is still carried out, and nothing is taken
//! back.

use crate::archive::zip_open_error;
use crate::archive::Archive;
use crate::paths::is_contained;
use crate::paths::is_directory_marker;
use crate::paths::join;
use crate::paths::joined;
use crate::paths::lies_under;
use crate::paths::marks_directory;
use crate::paths::stays_inside;
use crate::text::decimal;
use crate::text::decimal_text;
use vstd::prelude::*;

verus! {

/// One step of an extraction.
#[derive(Debug, PartialEq, Eq)]
pub enum ExtractStep {
    /// Create the directory at `path` and every directory above it that is
    /// missing.
    MakeDirectory { path: String },
    /// Create the directory that holds `path`, then create or truncate the
    /// file at `path` and write `contents` to it.
    WriteFile { path: String, contents: Vec<u8> },
}

/// An `ExtractStep` as plain values.
pub enum ExtractStepModel {
    MakeDirectory { path: Seq<char> },
    WriteFile { path: Seq<char>, contents: Seq<u8> },
}

impl View for ExtractStep {
    type V = ExtractStepModel;

    open spec fn view(&self) -> ExtractStepModel {
        match *self {
            ExtractStep::MakeDirectory { path } => ExtractStepModel::MakeDirectory { path: path@ },
            ExtractStep::WriteFile { path, contents } => ExtractStepModel::WriteFile {
                path: path@,
                contents: contents@,
            },
        }
    }
}

/// Why an extraction failed.
#[derive(Debug, PartialEq, Eq)]
pub enum ExtractError {
    /// The archive is missing or is no zip container.
    OpenFailed { cause: String },
    /// The entry at `entry_index` could not be read, decompressed or
    /// written, or its name leaves the destination.
    EntryFailed { entry_index: usize, cause: String },
}

/// An `ExtractError` as plain values.
pub enum ExtractErrorModel {
    OpenFailed { cause: Seq<char> },
    EntryFailed { entry_index: usize, cause: Seq<char> },
}

impl View for ExtractError {
    type V = ExtractErrorModel;

    open spec fn view(&self) -> ExtractErrorModel {
        match *self {
            ExtractError::OpenFailed { cause } => ExtractErrorModel::OpenFailed { cause: cause@ },
            ExtractError::EntryFailed { entry_index, cause } => ExtractErrorModel::EntryFailed {
                entry_index,
                cause: cause@,
            },
        }
    }
}

/// The one message that a failed extraction shows: the kind of failure and
/// its cause.
pub open spec fn extract_message_text(error: ExtractErrorModel) -> Seq<char> {
    match error {
        ExtractErrorModel::OpenFailed { cause } => "Failed to open archive: "@ + cause,
        ExtractErrorModel::EntryFailed { entry_index, cause } => "Failed to extract entry "@
            + decimal_text(entry_index as nat) + ": "@ + cause,
    }
}

impl ExtractError {
    /// The message that this failure shows.
    pub fn message(&self) -> (text: String)
        ensures
            text@ == extract_message_text(self@),
    {
        match self {
            ExtractError::OpenFailed { cause } => {
                let mut text: String = "Failed to open archive: ".to_owned();
                text.append(cause.as_str());
                text
            },
            ExtractError::EntryFailed { entry_index, cause } => {
                let mut text: String = "Failed to extract entry ".to_owned();
                let number: String = decimal(*entry_index);
                text.append(number.as_str());
                text.append(": ");
                text.append(cause.as_str());
                text
            },
        }
    }
}

/// Why an entry called `name` is refused: its name leaves the destination.
pub open spec fn refusal_text(name: Seq<char>) -> Seq<char> {
    "Entry name leaves the destination: "@ + name
}

/// The path that a step creates or writes.
pub open spec fn step_path(step: ExtractStepModel) -> Seq<char> {
    match step {
        ExtractStepModel::MakeDirectory { path } => path,
        ExtractStepModel::WriteFile { path, .. } => path,
    }
}

/// What an entry asks for when it is extracted under `destination`, given
/// what the archive yields as its name and as its bytes. An entry whose name
/// cannot be had fails with that cause. A name that does not stay inside
/// the destination is refused. A name that ends with `/` asks for a
/// directory, and its bytes are not looked at. Any other name asks for a
/// file with the bytes of the entry, and fails with their cause where they
/// cannot be read.
pub open spec fn step_of(
    destination: Seq<char>,
    name: Result<Seq<char>, Seq<char>>,
    payload: Result<Seq<u8>, Seq<char>>,
) -> Result<ExtractStepModel, Seq<char>> {
    match name {
        Err(cause) => Err(cause),
        Ok(text) => if !stays_inside(text) {
            Err(refusal_text(text))
        } else if marks_directory(text) {
            Ok(ExtractStepModel::MakeDirectory { path: joined(destination, text) })
        } else {
            match payload {
                Err(cause) => Err(cause),
                Ok(contents) => Ok(
                    ExtractStepModel::WriteFile { path: joined(destination, text), contents },
                ),
            }
        },
    }
}

/// The steps of an extraction, and the failure at which it stops if it
/// stops early.
#[derive(Debug, PartialEq, Eq)]
pub struct ExtractPlan {
    pub steps: Vec<ExtractStep>,
    pub failure: Option<ExtractError>,
}

/// An `ExtractPlan` as plain values.
pub struct ExtractPlanModel {
    pub steps: Seq<ExtractStepModel>,
    pub failure: Option<ExtractErrorModel>,
}

impl View for ExtractPlan {
    type V = ExtractPlanModel;

    open spec fn view(&self) -> ExtractPlanModel {
        ExtractPlanModel {
            steps: self.steps@.map_values(|step: ExtractStep| step@),
            failure: match self.failure {
                Some(error) => Some(error@),
                None => None,
            },
        }
    }
}

/// Whether `plan` is the extraction, under `destination`, of the entries
/// with these names and bytes: step `i` is what entry `i` asks for, for
/// every entry before the first that fails, and the failure is that of the
/// first entry that fails, with its index.
pub open spec fn is_extraction_of(
    plan: ExtractPlanModel,
    destination: Seq<char>,
    names: Seq<Result<Seq<char>, Seq<char>>>,
    payloads: Seq<Result<Seq<u8>, Seq<char>>>,
) -> bool {
    let done = plan.steps.len() as int;
    &&& done <= names.len()
    &&& forall|i: int|
        0 <= i < done ==> step_of(destination, names[i], payloads[i]) == Ok::<
            ExtractStepModel,
            Seq<char>,
        >(#[trigger] plan.steps[i])
    &&& match plan.failure {
        None => done == names.len(),
        Some(error) => {
            &&& done < names.len()
            &&& step_of(destination, names[done], payloads[done]) is Err
            &&& error == (ExtractErrorModel::EntryFailed {
                entry_index: done as usize,
                cause: step_of(destination, names[done], payloads[done])->Err_0,
            })
        },
    }
}

/// Opens the archive from what reading its file gave: the bytes of the
/// file, or why it could not be read. Fails with `OpenFailed` exactly when
/// the file could not be read or its bytes are no zip container, with the
/// cause of the one or the other. The archive holds what the bytes hold.
pub fn open_archive(read: Result<Vec<u8>, String>) -> (opened: Result<Archive, ExtractError>)
    ensures
        match read {
            Err(cause) => opened matches Err(error) && error@ == (ExtractErrorModel::OpenFailed {
                cause: cause@,
            }),
            Ok(bytes) => match opened {
                Ok(archive) => zip_open_error(bytes@) is None && archive.holds(bytes@),
                Err(error) => zip_open_error(bytes@) matches Some(cause) && error@ == (
                ExtractErrorModel::OpenFailed { cause }),
            },
        },
{
    let bytes: Vec<u8> = match read {
        Ok(bytes) => bytes,
        Err(cause) => {
            return Err(ExtractError::OpenFailed { cause });
        },
    };
    match Archive::open(bytes) {
        Ok(archive) => Ok(archive),
        Err(cause) => Err(ExtractError::OpenFailed { cause }),
    }
}

/// What an extraction comes to once the driver has carried its plan out.
/// `unwritten` is the first step that could not be carried out, by its
/// place in the plan, with the cause; `failure` is the failure at which the
/// plan stopped. A step that could not be carried out fails the extraction
/// as its entry; otherwise the failure of the plan stands; otherwise the
/// extraction succeeds.
pub fn conclude(failure: Option<ExtractError>, unwritten: Option<(usize, String)>) -> (outcome:
    Result<(), ExtractError>)
    ensures
        match unwritten {
            Some((entry_index, cause)) => outcome matches Err(error) && error@ == (
            ExtractErrorModel::EntryFailed { entry_index, cause: cause@ }),
            None => match failure {
                Some(error) => outcome == Err::<(), ExtractError>(error),
                None => outcome is Ok,
            },
        },
{
    match unwritten {
        Some((entry_index, cause)) => Err(ExtractError::EntryFailed { entry_index, cause }),
        None => match failure {
            Some(error) => Err(error),
            None => Ok(()),
        },
    }
}

/// Plans the extraction of the entry at `index` under `destination`. An
/// index past the last entry fails as that entry.
pub fn plan_entry(archive: &mut Archive, index: usize, destination: &str) -> (planned: Result<
    ExtractStep,
    ExtractError,
>)
    ensures
        old(archive).same_entries(final(archive)),
        index < old(archive).names().len() == old(archive).payloads().len() ==> match planned {
            Ok(step) => step_of(
                destination@,
                old(archive).names()[index as int],
                old(archive).payloads()[index as int],
            ) == Ok::<ExtractStepModel, Seq<char>>(step@),
            Err(error) => step_of(
                destination@,
                old(archive).names()[index as int],
                old(archive).payloads()[index as int],
            ) matches Err(cause) && error@ == (ExtractErrorModel::EntryFailed {
                entry_index: index,
                cause,
            }),
        },
        index >= old(archive).names().len() ==> (planned matches Err(
            ExtractError::EntryFailed { entry_index, .. },
        ) && entry_index == index),
{
    let name: String = match archive.name_at(index) {
        Ok(name) => name,
        Err(cause) => {
            return Err(ExtractError::EntryFailed { entry_index: index, cause });
        },
    };
    if !is_contained(name.as_str()) {
        proof {
            reveal_strlit("Entry name leaves the destination: ");
        }
        let mut cause: String = "Entry name leaves the destination: ".to_owned();
        cause.append(name.as_str());
        return Err(ExtractError::EntryFailed { entry_index: index, cause });
    }
    let path: String = join(destination, name.as_str());
    if is_directory_marker(name.as_str()) {
        return Ok(ExtractStep::MakeDirectory { path });
    }
    match archive.payload_at(index) {
        Ok(contents) => Ok(ExtractStep::WriteFile { path, contents }),
        Err(cause) => Err(ExtractError::EntryFailed { entry_index: index, cause }),
    }
}

/// Plans the extraction of every entry of `archive` under `destination`, in
/// the order of the archive, up to the first entry that fails.
///
/// Each file step carries the decompressed bytes of its entry, unchanged,
/// and every step creates or writes under `destination`.
pub fn plan_extraction(archive: &mut Archive, destination: &str) -> (plan: ExtractPlan)
    ensures
        old(archive).same_entries(final(archive)),
        is_extraction_of(plan@, destination@, old(archive).names(), old(archive).payloads()),
        forall|i: int|
            0 <= i < plan.steps@.len() ==> lies_under(
                step_path(#[trigger] plan.steps@[i]@),
                destination@,
            ),
        forall|i: int|
            0 <= i < plan.steps@.len() ==> (#[trigger] plan.steps@[i] matches ExtractStep::WriteFile {
                contents,
                ..
            } ==> i < old(archive).payloads().len() && old(archive).payloads()[i] == Ok::<
                Seq<u8>,
                Seq<char>,
            >(contents@)),
{
    let count: usize = archive.len();
    let mut steps: Vec<ExtractStep> = Vec::new();
    let mut failure: Option<ExtractError> = None;
    let mut index: usize = 0;
    while index < count && failure.is_none()
        invariant
            old(archive).same_entries(archive),
            count == old(archive).names().len(),
            count == old(archive).payloads().len(),
            index <= count,
            failure is None ==> steps@.len() == index,
            failure is Some ==> steps@.len() + 1 == index,
            forall|i: int|
                0 <= i < steps@.len() ==> step_of(
                    destination@,
                    old(archive).names()[i],
                    old(archive).payloads()[i],
                ) == Ok::<ExtractStepModel, Seq<char>>(#[trigger] steps@[i]@),
            failure matches Some(error) ==> (step_of(
                destination@,
                old(archive).names()[steps@.len() as int],
                old(archive).payloads()[steps@.len() as int],
            ) matches Err(cause) && error@ == (ExtractErrorModel::EntryFailed {
                entry_index: steps@.len() as usize,
                cause,
            })),
        decreases count - index,
    {
        match plan_entry(archive, index, destination) {
            Ok(step) => {
                steps.push(step);
            },
            Err(error) => {
                failure = Some(error);
            },
        }
        index += 1;
    }
    let plan = ExtractPlan { steps, failure };
    proof {
        let names = old(archive).names();
        let payloads = old(archive).payloads();
        assert(plan@.steps.len() == plan.steps@.len());
        assert forall|i: int| 0 <= i < plan@.steps.len() implies step_of(
            destination@,
            names[i],
            payloads[i],
        ) == Ok::<ExtractStepModel, Seq<char>>(#[trigger] plan@.steps[i]) by {
            assert(plan@.steps[i] == plan.steps@[i]@);
        }
        assert forall|i: int| 0 <= i < plan.steps@.len() implies lies_under(
            step_path(#[trigger] plan.steps@[i]@),
            destination@,
        ) by {
            assert(step_of(destination@, names[i], payloads[i]) == Ok::<
                ExtractStepModel,
                Seq<char>,
            >(plan.steps@[i]@));
            assert(step_path(plan.steps@[i]@) == joined(destination@, names[i]->Ok_0));
        }
        assert forall|i: int| 0 <= i < plan.steps@.len() implies (
        #[trigger] plan.steps@[i] matches ExtractStep::WriteFile { contents, .. } ==> payloads[i]
            == Ok::<Seq<u8>, Seq<char>>(contents@)) by {
            assert(step_of(destination@, names[i], payloads[i]) == Ok::<
                ExtractStepModel,
                Seq<char>,
            >(plan.steps@[i]@));
        }
    }
    plan
}

/// The entries of an archive and the destination fix the plan: two plans
/// for the same entries under the same destination are equal. Extracting
/// again therefore asks for the same directories and the same files with
/// the same bytes.
pub proof fn lemma_extraction_is_determined(
    first: ExtractPlanModel,
    second: ExtractPlanModel,
    destination: Seq<char>,
    names: Seq<Result<Seq<char>, Seq<char>>>,
    payloads: Seq<Result<Seq<u8>, Seq<char>>>,
)
    requires
        is_extraction_of(first, destination, names, payloads),
        is_extraction_of(second, destination, names, payloads),
    ensures
        first == second,
{
    let a = first.steps.len() as int;
    let b = second.steps.len() as int;
    if a < b {
        assert(step_of(destination, names[a], payloads[a]) == Ok::<ExtractStepModel, Seq<char>>(
            second.steps[a],
        ));
    } else if b < a {
        assert(step_of(destination, names[b], payloads[b]) == Ok::<ExtractStepModel, Seq<char>>(
            first.steps[b],
        ));
    }
    assert forall|i: int| 0 <= i < a implies first.steps[i] == second.steps[i] by {
        assert(step_of(destination, names[i], payloads[i]) == Ok::<ExtractStepModel, Seq<char>>(
            first.steps[i],
        ));
        assert(step_of(destination, names[i], payloads[i]) == Ok::<ExtractStepModel, Seq<char>>(
            second.steps[i],
        ));
    }
    assert(first.steps =~= second.steps);
}

/// What an extraction writes for an entry is what the archive holds for it:
/// every file step of a plan carries the decompressed bytes of the entry at
/// its place, and goes to the path of that entry's name under the
/// destination. The name stays inside, so the path lies under the
/// destination.
pub proof fn lemma_extraction_keeps_bytes(
    plan: ExtractPlanModel,
    destination: Seq<char>,
    names: Seq<Result<Seq<char>, Seq<char>>>,
    payloads: Seq<Result<Seq<u8>, Seq<char>>>,
    i: int,
)
    requires
        is_extraction_of(plan, destination, names, payloads),
        0 <= i < plan.steps.len(),
    ensures
        names[i] is Ok,
        stays_inside(names[i]->Ok_0),
        lies_under(step_path(plan.steps[i]), destination),
        plan.steps[i] matches ExtractStepModel::WriteFile { path, contents } ==> {
            &&& payloads[i] == Ok::<Seq<u8>, Seq<char>>(contents)
            &&& path == joined(destination, names[i]->Ok_0)
            &&& !marks_directory(names[i]->Ok_0)
        },
        plan.steps[i] matches ExtractStepModel::MakeDirectory { path } ==> {
            &&& path == joined(destination, names[i]->Ok_0)
            &&& marks_directory(names[i]->Ok_0)
        },
{
    assert(step_of(destination, names[i], payloads[i]) == Ok::<ExtractStepModel, Seq<char>>(
        plan.steps[i],
    ));
    assert(step_path(plan.steps[i]) == joined(destination, names[i]->Ok_0));
}

/// No plan holds a step for an entry whose name starts with `/` or climbs
/// above the destination: the first such entry ends the plan with a
/// failure, at its index.
pub proof fn lemma_escaping_entry_ends_the_plan(
    plan: ExtractPlanModel,
    destination: Seq<char>,
    names: Seq<Result<Seq<char>, Seq<char>>>,
    payloads: Seq<Result<Seq<u8>, Seq<char>>>,
    i: int,
)
    requires
        is_extraction_of(plan, destination, names, payloads),
        0 <= i < names.len(),
        names[i] matches Ok(name) && !stays_inside(name),
    ensures
        plan.steps.len() <= i,
        plan.failure is Some,
{
    if i < plan.steps.len() {
        assert(step_of(destination, names[i], payloads[i]) == Ok::<ExtractStepModel, Seq<char>>(
            plan.steps[i],
        ));
    }
}

/// Opening the same bytes again and extracting again gives the same plan:
/// two archives that hold what the same bytes hold have the same plan under
/// the same destination.
pub proof fn lemma_same_bytes_same_plan(
    first: ExtractPlanModel,
    second: ExtractPlanModel,
    destination: Seq<char>,
    bytes: Seq<u8>,
    one: Archive,
    other: Archive,
)
    requires
        one.holds(bytes),
        other.holds(bytes),
        is_extraction_of(first, destination, one.names(), one.payloads()),
        is_extraction_of(second, destination, other.names(), other.payloads()),
    ensures
        first == second,
{
    lemma_extraction_is_determined(first, second, destination, one.names(), one.payloads());
}

} // verus!
