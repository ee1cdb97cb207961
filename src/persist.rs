use vstd::prelude::*;

use crate::naming::{file_name, image_file_name};

verus! {

#[verifier::external_type_specification]
#[verifier::external_body]
pub struct ExDecodeError(base64::DecodeError);

/// The bytes that base64's standard alphabet, with padding, decodes from `text`;
/// `None` where the text is malformed.
pub uninterp spec fn base64_decoded(text: Seq<char>) -> Option<Seq<u8>>;

/// Relies on base64's `Engine::decode` with the `general_purpose::STANDARD` engine
/// (what `base64::decode` does): it fails exactly on malformed text, and its outcome
/// depends on the text alone.
#[verifier::external_body]
fn decode_base64(text: &str) -> (r: Result<Vec<u8>, base64::DecodeError>)
    ensures
        r is Ok <==> base64_decoded(text@) is Some,
        r is Ok ==> r->Ok_0@ == base64_decoded(text@)->Some_0,
{
    base64::Engine::decode(&base64::engine::general_purpose::STANDARD, text)
}

/// One image file to write: its name and its decoded bytes.
pub struct ImageFile {
    pub name: String,
    pub bytes: Vec<u8>,
}

impl View for ImageFile {
    type V = (Seq<char>, Seq<u8>);

    open spec fn view(&self) -> (Seq<char>, Seq<u8>) {
        (self.name@, self.bytes@)
    }
}

/// Why a result's images cannot all be written.
pub enum PersistError {
    /// The image at `index` is not valid base64.
    InvalidBase64 { index: usize, cause: base64::DecodeError },
}

impl PersistError {
    pub open spec fn spec_index(&self) -> nat {
        match self {
            PersistError::InvalidBase64 { index, .. } => *index as nat,
        }
    }

    /// The position of the image that failed.
    pub fn index(&self) -> (r: usize)
        ensures
            r as nat == self.spec_index(),
    {
        match self {
            PersistError::InvalidBase64 { index, .. } => *index,
        }
    }
}

/// The files to write for one result, in order, and the failure that stops the
/// writes after them, if any.
pub struct PersistPlan {
    pub files: Vec<ImageFile>,
    pub failure: Option<PersistError>,
}

/// The text of each image.
pub open spec fn texts(images: Seq<String>) -> Seq<Seq<char>> {
    images.map_values(|s: String| s@)
}

/// How many images, from the first on, decode before the first malformed one.
pub open spec fn decodable_prefix(images: Seq<Seq<char>>) -> nat
    decreases images.len(),
{
    if images.len() == 0 {
        0
    } else if base64_decoded(images[0]) is Some {
        1 + decodable_prefix(images.drop_first())
    } else {
        0
    }
}

/// The files written for `images` under `stamp`: name and bytes of each image before
/// the first malformed one.
pub open spec fn planned_files(stamp: Seq<char>, images: Seq<Seq<char>>) -> Seq<(Seq<char>, Seq<u8>)> {
    Seq::new(
        decodable_prefix(images),
        |i: int| (file_name(stamp, i as nat), base64_decoded(images[i])->Some_0),
    )
}

/// The position of the first malformed image, if there is one.
pub open spec fn failing_index(images: Seq<Seq<char>>) -> Option<nat> {
    if decodable_prefix(images) < images.len() {
        Some(decodable_prefix(images))
    } else {
        None
    }
}

/// The position of the failure of a plan, if there is one.
pub open spec fn plan_failure(failure: Option<PersistError>) -> Option<nat> {
    match failure {
        Some(e) => Some(e.spec_index()),
        None => None,
    }
}

proof fn lemma_decodable_prefix_exact(images: Seq<Seq<char>>, k: nat)
    requires
        k <= images.len(),
        forall|j: int| 0 <= j < k ==> (#[trigger] base64_decoded(images[j])) is Some,
        k < images.len() ==> base64_decoded(images[k as int]) is None,
    ensures
        decodable_prefix(images) == k,
    decreases k,
{
    if k > 0 {
        let rest = images.drop_first();
        assert forall|j: int| 0 <= j < k - 1 implies (#[trigger] base64_decoded(rest[j])) is Some by {
            assert(rest[j] == images[j + 1]);
        }
        if k < images.len() {
            assert(rest[k - 1] == images[k as int]);
        }
        lemma_decodable_prefix_exact(rest, (k - 1) as nat);
    }
}

proof fn lemma_decodable_prefix_facts(images: Seq<Seq<char>>)
    ensures
        decodable_prefix(images) <= images.len(),
        forall|j: int|
            0 <= j < decodable_prefix(images) ==> (#[trigger] base64_decoded(images[j])) is Some,
        decodable_prefix(images) < images.len() ==> base64_decoded(
            images[decodable_prefix(images) as int],
        ) is None,
    decreases images.len(),
{
    if images.len() > 0 && base64_decoded(images[0]) is Some {
        let rest = images.drop_first();
        lemma_decodable_prefix_facts(rest);
        assert forall|j: int|
            0 <= j < decodable_prefix(images) implies (#[trigger] base64_decoded(images[j])) is Some by {
            if j > 0 {
                assert(images[j] == rest[j - 1]);
            }
        }
        if decodable_prefix(images) < images.len() {
            assert(images[decodable_prefix(images) as int] == rest[decodable_prefix(rest) as int]);
        }
    }
}

/// When every image is valid base64, one file is planned per image, the `i`-th named
/// `<stamp>_<i>.png` under the one shared stamp, all names distinct, and nothing fails;
/// so an empty list plans no file and succeeds.
pub proof fn lemma_every_image_planned(stamp: Seq<char>, images: Seq<Seq<char>>)
    requires
        forall|i: int| 0 <= i < images.len() ==> (#[trigger] base64_decoded(images[i])) is Some,
    ensures
        planned_files(stamp, images).len() == images.len(),
        failing_index(images) is None,
        forall|i: int|
            0 <= i < images.len() ==> (#[trigger] planned_files(stamp, images)[i]).0 == file_name(
                stamp,
                i as nat,
            ),
        forall|i: int, j: int|
            0 <= i < images.len() && 0 <= j < images.len() && i != j ==> (#[trigger] planned_files(
                stamp,
                images,
            )[i]).0 != (#[trigger] planned_files(stamp, images)[j]).0,
{
    lemma_decodable_prefix_facts(images);
    assert forall|i: int, j: int|
        0 <= i < images.len() && 0 <= j < images.len() && i != j implies (#[trigger] planned_files(
            stamp,
            images,
        )[i]).0 != (#[trigger] planned_files(stamp, images)[j]).0 by {
        crate::naming::lemma_file_names_distinct(stamp, i as nat, j as nat);
    }
}

/// A malformed image at `j` is where the plan fails at the latest: no file is planned
/// for it or for any image after it, and the failure names the first malformed image.
pub proof fn lemma_nothing_planned_after_malformed(stamp: Seq<char>, images: Seq<Seq<char>>, j: nat)
    requires
        j < images.len(),
        base64_decoded(images[j as int]) is None,
    ensures
        planned_files(stamp, images).len() <= j,
        failing_index(images) == Some(decodable_prefix(images)),
        base64_decoded(images[decodable_prefix(images) as int]) is None,
        forall|i: int|
            0 <= i < decodable_prefix(images) ==> (#[trigger] base64_decoded(images[i])) is Some,
{
    lemma_decodable_prefix_facts(images);
}

/// Decodes `images` in order and names each under the one `stamp`, stopping at the
/// first malformed image: its position is the failure, and no later image is planned.
pub fn plan_writes(stamp: &str, images: &Vec<String>) -> (r: PersistPlan)
    ensures
        r.files@.map_values(|f: ImageFile| f@) == planned_files(stamp@, texts(images@)),
        plan_failure(r.failure) == failing_index(texts(images@)),
{
    let ghost t = texts(images@);
    let mut files: Vec<ImageFile> = Vec::new();
    let mut i: usize = 0;
    while i < images.len()
        invariant
            i <= images.len(),
            t == texts(images@),
            files@.len() == i,
            forall|j: int| 0 <= j < i ==> (#[trigger] base64_decoded(t[j])) is Some,
            forall|j: int|
                0 <= j < i ==> (#[trigger] files@[j])@ == (
                    file_name(stamp@, j as nat),
                    base64_decoded(t[j])->Some_0,
                ),
        decreases images.len() - i,
    {
        match decode_base64(images[i].as_str()) {
            Ok(bytes) => {
                let name = image_file_name(stamp, i);
                files.push(ImageFile { name, bytes });
            },
            Err(cause) => {
                proof {
                    lemma_decodable_prefix_exact(t, i as nat);
                    assert(files@.map_values(|f: ImageFile| f@) =~= planned_files(stamp@, t));
                }
                return PersistPlan { files, failure: Some(PersistError::InvalidBase64 { index: i, cause }) };
            },
        }
        i = i + 1;
    }
    proof {
        lemma_decodable_prefix_exact(t, i as nat);
        assert(files@.map_values(|f: ImageFile| f@) =~= planned_files(stamp@, t));
    }
    PersistPlan { files, failure: None }
}

} // verus!
