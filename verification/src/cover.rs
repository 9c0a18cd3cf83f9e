//! Choosing the cover of an archive: the image entry whose name comes first
//! in lexicographic order, under a new name.
//!
//! Only names decide. An entry is an image when its name, in lower case, has
//! one of five endings; what it holds is not looked at. Page names therefore
//! have to sort in reading order: `page10.jpg` stands before `page2.jpg`.

use crate::archive::entry_is;
use crate::archive::zip_open_error;
use crate::archive::Archive;
use crate::paths::extension;
use crate::paths::extension_of;
use crate::paths::join;
use crate::paths::joined;
use crate::text::chars_of;
use crate::text::chars_precede;
use crate::text::decimal;
use crate::text::decimal_text;
use crate::text::ends_with;
use crate::text::lemma_precedes_irreflexive;
use crate::text::lemma_precedes_total;
use crate::text::lemma_precedes_transitive;
use crate::text::lowercase;
use crate::text::lowercase_text;
use crate::text::precedes;
use vstd::prelude::*;

verus! {

/// Whether a name in lower case ends like the name of an image.
pub open spec fn has_image_ending(lowered: Seq<char>) -> bool {
    ||| ".jpg"@.is_suffix_of(lowered)
    ||| ".jpeg"@.is_suffix_of(lowered)
    ||| ".png"@.is_suffix_of(lowered)
    ||| ".webp"@.is_suffix_of(lowered)
    ||| ".bmp"@.is_suffix_of(lowered)
}

/// Whether an entry name is that of an image: its lower-case form has an
/// image ending.
pub open spec fn is_image_name(name: Seq<char>) -> bool {
    has_image_ending(lowercase_text(name))
}

/// Whether `lowered`, a name in lower case, ends like the name of an image.
pub fn has_image_suffix(lowered: &str) -> (yes: bool)
    ensures
        yes == has_image_ending(lowered@),
{
    let chars: Vec<char> = chars_of(lowered);
    ends_with(&chars, ".jpg") || ends_with(&chars, ".jpeg") || ends_with(&chars, ".png")
        || ends_with(&chars, ".webp") || ends_with(&chars, ".bmp")
}

/// Whether the entry called `name` counts as an image.
pub fn is_image(name: &str) -> (yes: bool)
    ensures
        yes == is_image_name(name@),
{
    let lowered: String = lowercase(name);
    has_image_suffix(lowered.as_str())
}

/// The test that picks the image names out of a list.
pub open spec fn image_test() -> spec_fn(Seq<char>) -> bool {
    |name: Seq<char>| is_image_name(name)
}

/// The image names among `names`, in their order.
pub open spec fn image_names(names: Seq<Seq<char>>) -> Seq<Seq<char>> {
    names.filter(image_test())
}

/// Whether `text` is one of `texts` and none of them stands before it.
pub open spec fn is_least(texts: Seq<Seq<char>>, text: Seq<char>) -> bool {
    &&& texts.contains(text)
    &&& forall|j: int| 0 <= j < texts.len() ==> !precedes(#[trigger] texts[j], text)
}

/// The one of `texts` that stands first in lexicographic order.
pub open spec fn least_of(texts: Seq<Seq<char>>) -> Seq<char> {
    choose|text: Seq<char>| is_least(texts, text)
}

/// A list has at most one least text: which one is chosen does not depend
/// on where it stands.
pub proof fn lemma_least_is_unique(texts: Seq<Seq<char>>, a: Seq<char>, b: Seq<char>)
    requires
        is_least(texts, a),
        is_least(texts, b),
    ensures
        a == b,
        least_of(texts) == a,
{
    lemma_precedes_total(a, b);
    let i = choose|i: int| 0 <= i < texts.len() && texts[i] == a;
    let j = choose|j: int| 0 <= j < texts.len() && texts[j] == b;
    assert(!precedes(texts[i], b));
    assert(!precedes(texts[j], a));
    let c = least_of(texts);
    lemma_precedes_total(a, c);
    let k = choose|k: int| 0 <= k < texts.len() && texts[k] == c;
    assert(!precedes(texts[i], c));
    assert(!precedes(texts[k], a));
}

/// Two lists that hold the same texts have the same least text, in whatever
/// order and however often they hold them.
pub proof fn lemma_least_ignores_order(first: Seq<Seq<char>>, second: Seq<Seq<char>>)
    requires
        forall|text: Seq<char>| first.contains(text) <==> second.contains(text),
        first.len() > 0,
    ensures
        least_of(first) == least_of(second),
{
    lemma_least_exists(first);
    let a = least_of(first);
    assert(second.contains(a));
    assert forall|j: int| 0 <= j < second.len() implies !precedes(#[trigger] second[j], a) by {
        assert(second.contains(second[j]));
        assert(first.contains(second[j]));
        let i = choose|i: int| 0 <= i < first.len() && first[i] == second[j];
        assert(!precedes(first[i], a));
    }
    lemma_least_is_unique(second, a, a);
}

/// Every list that is not empty has a least text.
pub proof fn lemma_least_exists(texts: Seq<Seq<char>>)
    requires
        texts.len() > 0,
    ensures
        is_least(texts, least_of(texts)),
    decreases texts.len(),
{
    let last = texts.last();
    let rest = texts.drop_last();
    if rest.len() == 0 {
        lemma_precedes_irreflexive(last);
        assert(texts[0] == last);
        assert(is_least(texts, last));
    } else {
        lemma_least_exists(rest);
        let a = least_of(rest);
        let i = choose|i: int| 0 <= i < rest.len() && rest[i] == a;
        assert(texts[i] == a);
        if precedes(last, a) {
            assert forall|j: int| 0 <= j < texts.len() implies !precedes(
                #[trigger] texts[j],
                last,
            ) by {
                if j < rest.len() {
                    assert(texts[j] == rest[j]);
                    if precedes(texts[j], last) {
                        lemma_precedes_transitive(texts[j], last, a);
                    }
                } else {
                    lemma_precedes_irreflexive(last);
                }
            }
            assert(texts[texts.len() - 1] == last);
            assert(is_least(texts, last));
        } else {
            assert forall|j: int| 0 <= j < texts.len() implies !precedes(#[trigger] texts[j], a) by {
                if j < rest.len() {
                    assert(texts[j] == rest[j]);
                }
            }
            assert(is_least(texts, a));
        }
    }
}

/// How many entries are images, and which one is the cover.
#[derive(Debug, Clone, Copy, PartialEq, Eq)]
pub struct CoverChoice {
    pub image_count: usize,
    pub chosen: Option<usize>,
}

/// Whether `choice` is the choice among `names`: it counts the image names,
/// and where there is one it points at the first entry that bears the least
/// of them.
pub open spec fn is_choice_among(choice: CoverChoice, names: Seq<Seq<char>>) -> bool {
    &&& choice.image_count == image_names(names).len()
    &&& match choice.chosen {
        None => image_names(names).len() == 0,
        Some(index) => {
            &&& index < names.len()
            &&& is_image_name(names[index as int])
            &&& is_least(image_names(names), names[index as int])
            &&& forall|j: int| 0 <= j < index ==> names[j] != names[index as int]
        },
    }
}

/// The texts of a list of strings.
pub open spec fn texts_of(names: Seq<String>) -> Seq<Seq<char>> {
    names.map_values(|name: String| name@)
}

/// The image names of a list grow by its next name exactly when that name
/// is an image name.
proof fn lemma_image_names_step(names: Seq<Seq<char>>, i: int)
    requires
        0 <= i < names.len(),
    ensures
        image_names(names.take(i + 1)) == if is_image_name(names[i]) {
            image_names(names.take(i)).push(names[i])
        } else {
            image_names(names.take(i))
        },
{
    reveal(Seq::filter);
    assert(names.take(i + 1).drop_last() =~= names.take(i));
    assert(names.take(i + 1).last() == names[i]);
}

/// Every image name of a list is an image name and stands in the list.
proof fn lemma_images_are_image_entries(names: Seq<Seq<char>>, k: int)
    requires
        0 <= k < image_names(names).len(),
    ensures
        is_image_name(image_names(names)[k]),
        names.contains(image_names(names)[k]),
{
    names.lemma_filter_pred(image_test(), k);
    assert(image_names(names).contains(image_names(names)[k]));
    names.lemma_filter_contains_rev(image_test(), image_names(names)[k]);
}

/// Every image name in a list is among its image names.
proof fn lemma_image_entries_are_images(names: Seq<Seq<char>>, i: int)
    requires
        0 <= i < names.len(),
        is_image_name(names[i]),
    ensures
        image_names(names).contains(names[i]),
{
    names.lemma_filter_contains(image_test(), i);
}

/// Counts the image names among `names` and finds the cover: the first
/// entry that bears the least image name.
pub fn choose_cover(names: &Vec<String>) -> (choice: CoverChoice)
    ensures
        is_choice_among(choice, texts_of(names@)),
{
    let ghost texts = texts_of(names@);
    let mut count: usize = 0;
    let mut best: Option<usize> = None;
    let mut best_chars: Vec<char> = Vec::new();
    let mut i: usize = 0;
    proof {
        reveal(Seq::filter);
        assert(texts.take(0) =~= Seq::empty());
    }
    while i < names.len()
        invariant
            texts == texts_of(names@),
            texts.len() == names.len(),
            i <= names.len(),
            count == image_names(texts.take(i as int)).len(),
            count <= i,
            best is None <==> count == 0,
            best matches Some(b) ==> {
                &&& b < i
                &&& best_chars@ == texts[b as int]
                &&& is_image_name(texts[b as int])
                &&& forall|j: int|
                    0 <= j < i && is_image_name(#[trigger] texts[j]) ==> !precedes(
                        texts[j],
                        texts[b as int],
                    )
                &&& forall|j: int|
                    0 <= j < b && is_image_name(#[trigger] texts[j]) ==> precedes(
                        texts[b as int],
                        texts[j],
                    )
            },
        decreases names.len() - i,
    {
        let name: &str = names[i].as_str();
        assert(name@ == texts[i as int]);
        proof {
            lemma_image_names_step(texts, i as int);
        }
        if is_image(name) {
            let chars: Vec<char> = chars_of(name);
            let better: bool = match best {
                None => true,
                Some(_) => chars_precede(&chars, &best_chars),
            };
            if better {
                proof {
                    lemma_precedes_irreflexive(texts[i as int]);
                    if let Some(b) = best {
                        assert forall|j: int|
                            0 <= j < i && is_image_name(#[trigger] texts[j]) implies !precedes(
                            texts[j],
                            texts[i as int],
                        ) && precedes(texts[i as int], texts[j]) by {
                            if precedes(texts[j], texts[i as int]) {
                                lemma_precedes_transitive(texts[j], texts[i as int], texts[b as int]);
                            }
                            lemma_precedes_total(texts[j], texts[b as int]);
                            if texts[j] != texts[b as int] {
                                lemma_precedes_transitive(texts[i as int], texts[b as int], texts[j]);
                            }
                        }
                    } else {
                        assert forall|j: int| 0 <= j < i implies !is_image_name(
                            #[trigger] texts[j],
                        ) by {
                            if is_image_name(texts[j]) {
                                lemma_image_entries_are_images(texts.take(i as int), j);
                            }
                        }
                    }
                }
                best = Some(i);
                best_chars = chars;
            }
            count += 1;
        }
        i += 1;
    }
    proof {
        assert(texts.take(i as int) =~= texts);
        if let Some(b) = best {
            let images = image_names(texts);
            lemma_image_entries_are_images(texts, b as int);
            assert forall|k: int| 0 <= k < images.len() implies !precedes(
                #[trigger] images[k],
                texts[b as int],
            ) by {
                lemma_images_are_image_entries(texts, k);
                let j = choose|j: int| 0 <= j < texts.len() && texts[j] == images[k];
                assert(is_image_name(texts[j]));
            }
            assert forall|j: int| 0 <= j < b implies texts[j] != texts[b as int] by {
                if texts[j] == texts[b as int] {
                    assert(is_image_name(texts[j]));
                    lemma_precedes_irreflexive(texts[j]);
                }
            }
        }
    }
    CoverChoice { image_count: count, chosen: best }
}

/// What the cover selection reports.
#[derive(Debug, PartialEq, Eq)]
pub struct CoverSummary {
    /// The number of image entries in the archive.
    pub image_count: usize,
    /// The file name under which the cover is stored, if there is a cover.
    pub first_image_output_name: Option<String>,
}

/// The file to write for the cover.
#[derive(Debug, PartialEq, Eq)]
pub struct CoverFile {
    pub path: String,
    pub contents: Vec<u8>,
}

/// The outcome of a cover selection: the summary, and the file that the
/// driver is to write where there is a cover.
#[derive(Debug, PartialEq, Eq)]
pub struct CoverPlan {
    pub summary: CoverSummary,
    pub file: Option<CoverFile>,
}

/// A `CoverPlan` as plain values.
pub struct CoverPlanModel {
    pub image_count: nat,
    pub first_image_output_name: Option<Seq<char>>,
    pub file: Option<(Seq<char>, Seq<u8>)>,
}

impl View for CoverPlan {
    type V = CoverPlanModel;

    open spec fn view(&self) -> CoverPlanModel {
        CoverPlanModel {
            image_count: self.summary.image_count as nat,
            first_image_output_name: match self.summary.first_image_output_name {
                Some(name) => Some(name@),
                None => None,
            },
            file: match self.file {
                Some(file) => Some((file.path@, file.contents@)),
                None => None,
            },
        }
    }
}

/// Why a cover selection failed.
#[derive(Debug, PartialEq, Eq)]
pub enum CoverError {
    /// The archive is missing or is no zip container.
    OpenFailed { cause: String },
    /// The entry at `entry_index` could not be opened or read.
    EntryFailed { entry_index: usize, cause: String },
    /// The name of the chosen image has no extension.
    MissingExtension,
    /// The cover could not be written at `path`.
    LocalIo { path: String, cause: String },
}

/// A `CoverError` as plain values.
pub enum CoverErrorModel {
    OpenFailed { cause: Seq<char> },
    EntryFailed { entry_index: usize, cause: Seq<char> },
    MissingExtension,
    LocalIo { path: Seq<char>, cause: Seq<char> },
}

impl View for CoverError {
    type V = CoverErrorModel;

    open spec fn view(&self) -> CoverErrorModel {
        match *self {
            CoverError::OpenFailed { cause } => CoverErrorModel::OpenFailed { cause: cause@ },
            CoverError::EntryFailed { entry_index, cause } => CoverErrorModel::EntryFailed {
                entry_index,
                cause: cause@,
            },
            CoverError::MissingExtension => CoverErrorModel::MissingExtension,
            CoverError::LocalIo { path, cause } => CoverErrorModel::LocalIo {
                path: path@,
                cause: cause@,
            },
        }
    }
}

/// The one message that a failed cover selection shows: the kind of
/// failure and its cause.
pub open spec fn cover_message_text(error: CoverErrorModel) -> Seq<char> {
    match error {
        CoverErrorModel::OpenFailed { cause } => "Failed to open archive: "@ + cause,
        CoverErrorModel::EntryFailed { entry_index, cause } => "Failed to read entry "@
            + decimal_text(entry_index as nat) + ": "@ + cause,
        CoverErrorModel::MissingExtension => "Invalid file extension"@,
        CoverErrorModel::LocalIo { path, cause } => "Failed to write "@ + path + ": "@ + cause,
    }
}

impl CoverError {
    /// The message that this failure shows.
    pub fn message(&self) -> (text: String)
        ensures
            text@ == cover_message_text(self@),
    {
        match self {
            CoverError::OpenFailed { cause } => {
                let mut text: String = "Failed to open archive: ".to_owned();
                text.append(cause.as_str());
                text
            },
            CoverError::EntryFailed { entry_index, cause } => {
                let mut text: String = "Failed to read entry ".to_owned();
                let number: String = decimal(*entry_index);
                text.append(number.as_str());
                text.append(": ");
                text.append(cause.as_str());
                text
            },
            CoverError::MissingExtension => "Invalid file extension".to_owned(),
            CoverError::LocalIo { path, cause } => {
                let mut text: String = "Failed to write ".to_owned();
                text.append(path.as_str());
                text.append(": ");
                text.append(cause.as_str());
                text
            },
        }
    }
}

/// Whether every entry yields its name.
pub open spec fn all_named(names: Seq<Result<Seq<char>, Seq<char>>>) -> bool {
    forall|i: int| 0 <= i < names.len() ==> (#[trigger] names[i]) is Ok
}

/// Whether `index` is the first entry that does not yield its name.
pub open spec fn is_first_unnamed(names: Seq<Result<Seq<char>, Seq<char>>>, index: int) -> bool {
    &&& 0 <= index < names.len()
    &&& names[index] is Err
    &&& forall|j: int| 0 <= j < index ==> (#[trigger] names[j]) is Ok
}

/// The names of the entries, where every entry yields its name.
pub open spec fn entry_texts(names: Seq<Result<Seq<char>, Seq<char>>>) -> Seq<Seq<char>> {
    names.map_values(|name: Result<Seq<char>, Seq<char>>| name->Ok_0)
}

/// The file name of a cover: the base name, a dot, and the extension of
/// the chosen image.
pub open spec fn cover_file_name(base: Seq<char>, ext: Seq<char>) -> Seq<char> {
    base + seq!['.'] + ext
}

/// What the selection yields once the cover is chosen: `chosen` is the name
/// of entry `index`, and `found` is what a search for that name gave. The
/// search comes first, then the extension, then the bytes.
pub open spec fn cover_outcome(
    base: Seq<char>,
    directory: Seq<char>,
    image_count: nat,
    index: usize,
    chosen: Seq<char>,
    found: Result<Result<Seq<u8>, Seq<char>>, Seq<char>>,
) -> Result<CoverPlanModel, CoverErrorModel> {
    match found {
        Err(cause) => Err(CoverErrorModel::EntryFailed { entry_index: index, cause }),
        Ok(read) => match extension(chosen) {
            None => Err(CoverErrorModel::MissingExtension),
            Some(ext) => match read {
                Err(cause) => Err(CoverErrorModel::EntryFailed { entry_index: index, cause }),
                Ok(contents) => Ok(
                    CoverPlanModel {
                        image_count,
                        first_image_output_name: Some(cover_file_name(base, ext)),
                        file: Some((joined(directory, cover_file_name(base, ext)), contents)),
                    },
                ),
            },
        },
    }
}

/// Whether `outcome` is the cover selection on `archive` for the base name
/// `base` and the directory `directory`.
///
/// The first entry without a name fails the selection. Otherwise the images
/// are counted. Without an image there is no cover and no failure. With
/// one, the cover is the least image name, searched by that name and stored
/// as the base name with the extension of the image.
pub open spec fn is_selection_on(
    outcome: Result<CoverPlanModel, CoverErrorModel>,
    base: Seq<char>,
    directory: Seq<char>,
    archive: Archive,
) -> bool {
    let names = archive.names();
    let texts = entry_texts(names);
    let images = image_names(texts);
    if !all_named(names) {
        outcome matches Err(CoverErrorModel::EntryFailed { entry_index, cause })
            && is_first_unnamed(names, entry_index as int) && names[entry_index as int] == Err::<
            Seq<char>,
            Seq<char>,
        >(cause)
    } else if images.len() == 0 {
        outcome == Ok::<CoverPlanModel, CoverErrorModel>(
            CoverPlanModel { image_count: 0, first_image_output_name: None, file: None },
        )
    } else {
        exists|index: usize|
            #![trigger texts[index as int]]
            {
                &&& index < texts.len()
                &&& is_least(images, texts[index as int])
                &&& forall|j: int| 0 <= j < index ==> texts[j] != texts[index as int]
                &&& outcome == cover_outcome(
                    base,
                    directory,
                    images.len(),
                    index,
                    texts[index as int],
                    archive.named_payload(texts[index as int]),
                )
            }
    }
}

/// Whether the entry at `index` bears the least image name of `archive`
/// and holds `contents`.
pub open spec fn is_cover_entry(archive: Archive, index: int, contents: Seq<u8>) -> bool {
    &&& 0 <= index < archive.names().len()
    &&& index < archive.payloads().len()
    &&& archive.names()[index] matches Ok(name) && is_least(
        image_names(entry_texts(archive.names())),
        name,
    )
    &&& archive.payloads()[index] == Ok::<Seq<u8>, Seq<char>>(contents)
}

/// The plain form of an outcome.
pub open spec fn outcome_model(outcome: Result<CoverPlan, CoverError>) -> Result<
    CoverPlanModel,
    CoverErrorModel,
> {
    match outcome {
        Ok(plan) => Ok(plan@),
        Err(error) => Err(error@),
    }
}

/// Opens the archive from what reading its file gave: the bytes of the
/// file, or why it could not be read. Fails with `OpenFailed` exactly when
/// the file could not be read or its bytes are no zip container, with the
/// cause of the one or the other. The archive holds what the bytes hold.
pub fn open_archive(read: Result<Vec<u8>, String>) -> (opened: Result<Archive, CoverError>)
    ensures
        match read {
            Err(cause) => opened matches Err(error) && error@ == (CoverErrorModel::OpenFailed {
                cause: cause@,
            }),
            Ok(bytes) => match opened {
                Ok(archive) => zip_open_error(bytes@) is None && archive.holds(bytes@),
                Err(error) => zip_open_error(bytes@) matches Some(cause) && error@ == (
                CoverErrorModel::OpenFailed { cause }),
            },
        },
{
    let bytes: Vec<u8> = match read {
        Ok(bytes) => bytes,
        Err(cause) => {
            return Err(CoverError::OpenFailed { cause });
        },
    };
    match Archive::open(bytes) {
        Ok(archive) => Ok(archive),
        Err(cause) => Err(CoverError::OpenFailed { cause }),
    }
}

/// What a selection comes to once the driver has written the cover.
/// `written` is the outcome of writing the file of the plan; it is not
/// looked at where the plan has no file. A cover that could not be written
/// fails the selection with its path and the cause; otherwise the summary
/// of the plan stands.
pub fn conclude(plan: CoverPlan, written: Result<(), String>) -> (outcome: Result<
    CoverSummary,
    CoverError,
>)
    ensures
        match (plan.file, written) {
            (Some(file), Err(cause)) => outcome matches Err(error) && error@ == (
            CoverErrorModel::LocalIo { path: file.path@, cause: cause@ }),
            _ => outcome == Ok::<CoverSummary, CoverError>(plan.summary),
        },
{
    match (plan.file, written) {
        (Some(file), Err(cause)) => Err(CoverError::LocalIo { path: file.path, cause }),
        _ => Ok(plan.summary),
    }
}

/// The names of all entries, in the order of the archive, or the failure of
/// the first entry that does not yield its name.
pub fn entry_names(archive: &mut Archive) -> (listed: Result<Vec<String>, CoverError>)
    ensures
        old(archive).same_entries(final(archive)),
        match listed {
            Ok(names) => all_named(old(archive).names()) && texts_of(names@) == entry_texts(
                old(archive).names(),
            ),
            Err(error) => error@ matches CoverErrorModel::EntryFailed { entry_index, cause }
                && is_first_unnamed(old(archive).names(), entry_index as int) && old(
                archive,
            ).names()[entry_index as int] == Err::<Seq<char>, Seq<char>>(cause),
        },
{
    let count: usize = archive.len();
    let mut names: Vec<String> = Vec::new();
    let mut index: usize = 0;
    while index < count
        invariant
            old(archive).same_entries(archive),
            count == old(archive).names().len(),
            index <= count,
            names@.len() == index,
            forall|i: int|
                0 <= i < index ==> (#[trigger] old(archive).names()[i]) == Ok::<
                    Seq<char>,
                    Seq<char>,
                >(names@[i]@),
        decreases count - index,
    {
        match archive.name_at(index) {
            Ok(name) => {
                names.push(name);
            },
            Err(cause) => {
                return Err(CoverError::EntryFailed { entry_index: index, cause });
            },
        }
        index += 1;
    }
    assert(texts_of(names@) =~= entry_texts(old(archive).names()));
    Ok(names)
}

/// Selects the cover of `archive`: counts its image entries, picks the one
/// whose name stands first in lexicographic order, and plans to store it in
/// `output_dir` as `output_base_name` with the extension of the image.
///
/// An archive without images yields a count of zero and no file. That is no
/// failure.
pub fn select_cover(output_base_name: &str, archive: &mut Archive, output_dir: &str) -> (outcome:
    Result<CoverPlan, CoverError>)
    ensures
        old(archive).same_entries(final(archive)),
        is_selection_on(outcome_model(outcome), output_base_name@, output_dir@, *old(archive)),
        outcome matches Ok(plan) ==> (plan.file matches Some(file) ==> exists|index: int| #[trigger]
            is_cover_entry(*old(archive), index, file.contents@)),
{
    let names: Vec<String> = match entry_names(archive) {
        Ok(names) => names,
        Err(error) => {
            return Err(error);
        },
    };
    let ghost texts = entry_texts(old(archive).names());
    let choice: CoverChoice = choose_cover(&names);
    let index: usize = match choice.chosen {
        Some(index) => index,
        None => {
            return Ok(
                CoverPlan {
                    summary: CoverSummary { image_count: 0, first_image_output_name: None },
                    file: None,
                },
            );
        },
    };
    let chosen: &str = names[index].as_str();
    assert(chosen@ == texts[index as int]);
    proof {
        lemma_image_entries_are_images(texts, index as int);
    }
    let found = archive.payload_named(chosen);
    let ghost expected = cover_outcome(
        output_base_name@,
        output_dir@,
        choice.image_count as nat,
        index,
        chosen@,
        old(archive).named_payload(chosen@),
    );
    let read = match found {
        Ok(read) => read,
        Err(cause) => {
            let outcome = Err(CoverError::EntryFailed { entry_index: index, cause });
            assert(outcome_model(outcome) == expected);
            return outcome;
        },
    };
    let ext: String = match extension_of(chosen) {
        Some(ext) => ext,
        None => {
            let outcome = Err(CoverError::MissingExtension);
            assert(outcome_model(outcome) == expected);
            return outcome;
        },
    };
    let contents: Vec<u8> = match read {
        Ok(contents) => contents,
        Err(cause) => {
            let outcome = Err(CoverError::EntryFailed { entry_index: index, cause });
            assert(outcome_model(outcome) == expected);
            return outcome;
        },
    };
    proof {
        reveal_strlit(".");
    }
    let mut file_name: String = output_base_name.to_owned();
    file_name.append(".");
    file_name.append(ext.as_str());
    assert(file_name@ =~= cover_file_name(output_base_name@, ext@));
    proof {
        let at = choose|at: int| #[trigger]
            entry_is(
                old(archive).names(),
                old(archive).payloads(),
                at,
                chosen@,
                Ok::<Seq<u8>, Seq<char>>(contents@),
            );
        assert(is_cover_entry(*old(archive), at, contents@));
    }
    let path: String = join(output_dir, file_name.as_str());
    let outcome = Ok(
        CoverPlan {
            summary: CoverSummary {
                image_count: choice.image_count,
                first_image_output_name: Some(file_name),
            },
            file: Some(CoverFile { path, contents }),
        },
    );
    assert(outcome_model(outcome) == expected);
    outcome
}

/// An archive whose entries all have names and none of them an image name
/// has no cover: the selection succeeds with a count of zero, no output
/// name and no file.
pub proof fn lemma_no_images_no_cover(
    outcome: Result<CoverPlanModel, CoverErrorModel>,
    base: Seq<char>,
    directory: Seq<char>,
    archive: Archive,
)
    requires
        is_selection_on(outcome, base, directory, archive),
        all_named(archive.names()),
        forall|i: int|
            0 <= i < archive.names().len() ==> !is_image_name(
                #[trigger] entry_texts(archive.names())[i],
            ),
    ensures
        outcome == Ok::<CoverPlanModel, CoverErrorModel>(
            CoverPlanModel { image_count: 0, first_image_output_name: None, file: None },
        ),
{
    let texts = entry_texts(archive.names());
    let images = image_names(texts);
    if images.len() > 0 {
        lemma_images_are_image_entries(texts, 0);
        let j = choose|j: int| 0 <= j < texts.len() && texts[j] == images[0];
        assert(!is_image_name(texts[j]));
    }
}

/// The archive and the two names fix the outcome of a selection: two
/// outcomes on the same archive are equal.
pub proof fn lemma_selection_is_determined(
    first: Result<CoverPlanModel, CoverErrorModel>,
    second: Result<CoverPlanModel, CoverErrorModel>,
    base: Seq<char>,
    directory: Seq<char>,
    archive: Archive,
)
    requires
        is_selection_on(first, base, directory, archive),
        is_selection_on(second, base, directory, archive),
    ensures
        first == second,
{
    let names = archive.names();
    let texts = entry_texts(names);
    let images = image_names(texts);
    if !all_named(names) {
        let a = first->Err_0->EntryFailed_entry_index;
        let b = second->Err_0->EntryFailed_entry_index;
        if a < b {
            assert(names[a as int] is Ok);
        } else if b < a {
            assert(names[b as int] is Ok);
        }
    } else if images.len() > 0 {
        let a = choose|index: usize|
            #![trigger texts[index as int]]
            {
                &&& index < texts.len()
                &&& is_least(images, texts[index as int])
                &&& forall|j: int| 0 <= j < index ==> texts[j] != texts[index as int]
                &&& first == cover_outcome(
                    base,
                    directory,
                    images.len(),
                    index,
                    texts[index as int],
                    archive.named_payload(texts[index as int]),
                )
            };
        let b = choose|index: usize|
            #![trigger texts[index as int]]
            {
                &&& index < texts.len()
                &&& is_least(images, texts[index as int])
                &&& forall|j: int| 0 <= j < index ==> texts[j] != texts[index as int]
                &&& second == cover_outcome(
                    base,
                    directory,
                    images.len(),
                    index,
                    texts[index as int],
                    archive.named_payload(texts[index as int]),
                )
            };
        lemma_least_is_unique(images, texts[a as int], texts[b as int]);
    }
}

/// The image names of a list without equal names are without equal names.
proof fn lemma_image_names_stay_distinct(names: Seq<Seq<char>>)
    requires
        names.no_duplicates(),
    ensures
        image_names(names).no_duplicates(),
    decreases names.len(),
{
    reveal(Seq::filter);
    if names.len() > 0 {
        let rest = names.drop_last();
        let last = names.last();
        lemma_image_names_stay_distinct(rest);
        if is_image_name(last) {
            let images = image_names(rest);
            assert(image_names(names) == images.push(last));
            if images.contains(last) {
                rest.lemma_filter_contains_rev(image_test(), last);
                let i = choose|i: int| 0 <= i < rest.len() && rest[i] == last;
                assert(names[i] == names[names.len() - 1]);
            }
        }
    }
}

/// Two lists without equal names that hold the same names hold the same
/// number of image names, and the same image names.
pub proof fn lemma_image_count_ignores_order(first: Seq<Seq<char>>, second: Seq<Seq<char>>)
    requires
        first.no_duplicates(),
        second.no_duplicates(),
        forall|text: Seq<char>| first.contains(text) <==> second.contains(text),
    ensures
        image_names(first).len() == image_names(second).len(),
        forall|text: Seq<char>|
            image_names(first).contains(text) <==> image_names(second).contains(text),
{
    let a = image_names(first);
    let b = image_names(second);
    assert forall|text: Seq<char>| a.contains(text) <==> b.contains(text) by {
        if a.contains(text) {
            let k = choose|k: int| 0 <= k < a.len() && a[k] == text;
            lemma_images_are_image_entries(first, k);
            assert(second.contains(text));
            let j = choose|j: int| 0 <= j < second.len() && second[j] == text;
            lemma_image_entries_are_images(second, j);
        }
        if b.contains(text) {
            let k = choose|k: int| 0 <= k < b.len() && b[k] == text;
            lemma_images_are_image_entries(second, k);
            assert(first.contains(text));
            let j = choose|j: int| 0 <= j < first.len() && first[j] == text;
            lemma_image_entries_are_images(first, j);
        }
    }
    lemma_image_names_stay_distinct(first);
    lemma_image_names_stay_distinct(second);
    a.unique_seq_to_set();
    b.unique_seq_to_set();
    assert(a.to_set() =~= b.to_set());
}

/// The selection ignores the order of the entries. Two archives whose
/// entries all have names, no two of them equal, that hold the same names
/// and answer a search by name alike, come to the same cover: the same
/// count, the same output name and the same file. Where the selection
/// fails, it fails alike, but for the index of the entry, which is its place
/// in the archive.
pub proof fn lemma_selection_ignores_order(
    first: Result<CoverPlanModel, CoverErrorModel>,
    second: Result<CoverPlanModel, CoverErrorModel>,
    base: Seq<char>,
    directory: Seq<char>,
    one: Archive,
    other: Archive,
)
    requires
        is_selection_on(first, base, directory, one),
        is_selection_on(second, base, directory, other),
        all_named(one.names()),
        all_named(other.names()),
        entry_texts(one.names()).no_duplicates(),
        entry_texts(other.names()).no_duplicates(),
        forall|text: Seq<char>|
            entry_texts(one.names()).contains(text) <==> entry_texts(other.names()).contains(text),
        forall|name: Seq<char>| one.named_payload(name) == other.named_payload(name),
    ensures
        first is Ok ==> second == first,
        second is Ok ==> second == first,
        first matches Err(CoverErrorModel::MissingExtension) ==> second == first,
        first matches Err(CoverErrorModel::EntryFailed { cause, .. }) ==> second matches Err(
            CoverErrorModel::EntryFailed { cause: same, .. },
        ) && same == cause,
{
    let texts = entry_texts(one.names());
    let others = entry_texts(other.names());
    let images = image_names(texts);
    lemma_image_count_ignores_order(texts, others);
    if images.len() > 0 {
        let a = choose|index: usize|
            #![trigger texts[index as int]]
            {
                &&& index < texts.len()
                &&& is_least(images, texts[index as int])
                &&& forall|j: int| 0 <= j < index ==> texts[j] != texts[index as int]
                &&& first == cover_outcome(
                    base,
                    directory,
                    images.len(),
                    index,
                    texts[index as int],
                    one.named_payload(texts[index as int]),
                )
            };
        let b = choose|index: usize|
            #![trigger others[index as int]]
            {
                &&& index < others.len()
                &&& is_least(image_names(others), others[index as int])
                &&& forall|j: int| 0 <= j < index ==> others[j] != others[index as int]
                &&& second == cover_outcome(
                    base,
                    directory,
                    image_names(others).len(),
                    index,
                    others[index as int],
                    other.named_payload(others[index as int]),
                )
            };
        lemma_least_ignores_order(images, image_names(others));
        lemma_least_is_unique(images, texts[a as int], texts[a as int]);
        lemma_least_is_unique(image_names(others), others[b as int], others[b as int]);
        assert(texts[a as int] == others[b as int]);
    }
}

/// Opening the same bytes again and selecting again gives the same
/// outcome: two archives that hold what the same bytes hold come to the same
/// selection.
pub proof fn lemma_same_bytes_same_selection(
    first: Result<CoverPlanModel, CoverErrorModel>,
    second: Result<CoverPlanModel, CoverErrorModel>,
    base: Seq<char>,
    directory: Seq<char>,
    bytes: Seq<u8>,
    one: Archive,
    other: Archive,
)
    requires
        one.holds(bytes),
        other.holds(bytes),
        is_selection_on(first, base, directory, one),
        is_selection_on(second, base, directory, other),
    ensures
        first == second,
{
    let names = one.names();
    let texts = entry_texts(names);
    let images = image_names(texts);
    if !all_named(names) {
        let a = first->Err_0->EntryFailed_entry_index;
        let b = second->Err_0->EntryFailed_entry_index;
        if a < b {
            assert(names[a as int] is Ok);
        } else if b < a {
            assert(names[b as int] is Ok);
        }
    } else if images.len() > 0 {
        let a = choose|index: usize|
            #![trigger texts[index as int]]
            {
                &&& index < texts.len()
                &&& is_least(images, texts[index as int])
                &&& forall|j: int| 0 <= j < index ==> texts[j] != texts[index as int]
                &&& first == cover_outcome(
                    base,
                    directory,
                    images.len(),
                    index,
                    texts[index as int],
                    one.named_payload(texts[index as int]),
                )
            };
        let b = choose|index: usize|
            #![trigger texts[index as int]]
            {
                &&& index < texts.len()
                &&& is_least(images, texts[index as int])
                &&& forall|j: int| 0 <= j < index ==> texts[j] != texts[index as int]
                &&& second == cover_outcome(
                    base,
                    directory,
                    images.len(),
                    index,
                    texts[index as int],
                    other.named_payload(texts[index as int]),
                )
            };
        lemma_least_is_unique(images, texts[a as int], texts[b as int]);
    }
}

} // verus!
