//! Pairing the entries of the directory: every image with the weight that
//! its sidecar holds, where it has one.

use vstd::prelude::*;
use crate::name::{entry_kind, kind_of, lemma_sidecar_of, sidecar_name, sidecar_of, EntryKind};
use crate::weight::{parse_weight, weight_of, WeightError};

verus! {

/// What a sidecar says of a pumpkin.
#[derive(Clone, Copy, Debug, PartialEq, Eq)]
pub struct PumpkinMeta {
    /// The weight, as the sidecar gives it.
    pub weight: usize,
}

/// One pumpkin: an image, and what its sidecar says where it has one.
#[derive(Debug, PartialEq, Eq)]
pub struct Pumpkin {
    /// The name of the image file, extension included.
    pub image: String,
    /// The contents of the sidecar; `None` where the image has none.
    pub meta: Option<PumpkinMeta>,
}

/// A pumpkin as a mathematical value.
pub struct PumpkinView {
    pub image: Seq<char>,
    pub weight: Option<nat>,
}

impl View for Pumpkin {
    type V = PumpkinView;

    open spec fn view(&self) -> PumpkinView {
        PumpkinView {
            image: self.image@,
            weight: match self.meta {
                Some(meta) => Some(meta.weight as nat),
                None => None,
            },
        }
    }
}

/// An image together with the sidecar that was found for it. The sidecar is
/// named, not yet read.
#[derive(Debug, PartialEq, Eq)]
pub struct Pairing {
    /// The name of the image file.
    pub image: String,
    /// The name of the sidecar file; `None` where the directory has none.
    pub sidecar: Option<String>,
}

/// A pairing as a mathematical value.
pub struct PairingView {
    pub image: Seq<char>,
    pub sidecar: Option<Seq<char>>,
}

impl View for Pairing {
    type V = PairingView;

    open spec fn view(&self) -> PairingView {
        PairingView {
            image: self.image@,
            sidecar: match self.sidecar {
                Some(name) => Some(name@),
                None => None,
            },
        }
    }
}

/// Why a pairing gives no pumpkin.
#[derive(Clone, Copy, Debug, PartialEq, Eq, Structural)]
pub enum Failure {
    /// The sidecar is there, but its text could not be had.
    Unreadable,
    /// The text of the sidecar is no weight.
    BadWeight(WeightError),
}

/// The first pairing of a plan that gives no pumpkin, and why.
#[derive(Clone, Copy, Debug, PartialEq, Eq, Structural)]
pub struct ScanError {
    /// The place of the pairing in the plan.
    pub index: usize,
    /// What went wrong with it.
    pub failure: Failure,
}

/// The texts of a list of strings.
pub open spec fn texts_of(list: Seq<String>) -> Seq<Seq<char>> {
    list.map_values(|s: String| s@)
}

/// The values of a list of pairings.
pub open spec fn pairings_of(list: Seq<Pairing>) -> Seq<PairingView> {
    list.map_values(|p: Pairing| p@)
}

/// The values of a list of pumpkins.
pub open spec fn pumpkins_of(list: Seq<Pumpkin>) -> Seq<PumpkinView> {
    list.map_values(|p: Pumpkin| p@)
}

/// The image candidates of a listing, in the order of the listing.
pub open spec fn images_of(names: Seq<Seq<char>>) -> Seq<Seq<char>> {
    names.filter(|n: Seq<char>| kind_of(n) == EntryKind::Image)
}

/// The sidecar candidates of a listing, in the order of the listing.
pub open spec fn sidecars_of(names: Seq<Seq<char>>) -> Seq<Seq<char>> {
    names.filter(|n: Seq<char>| kind_of(n) == EntryKind::Sidecar)
}

/// An image with its sidecar: the sidecar candidate of the listing whose
/// name is, letter for letter, the one looked for.
pub open spec fn pairing_of(names: Seq<Seq<char>>, image: Seq<char>) -> PairingView {
    PairingView {
        image,
        sidecar: if sidecars_of(names).contains(sidecar_of(image)) {
            Some(sidecar_of(image))
        } else {
            None
        },
    }
}

/// The plan of a listing: one pairing for each image candidate, in the
/// order of the listing.
pub open spec fn plan_of(names: Seq<Seq<char>>) -> Seq<PairingView> {
    images_of(names).map_values(|image: Seq<char>| pairing_of(names, image))
}

/// The pumpkin that a pairing gives, with the text of its sidecar where that
/// was read. Without a sidecar no text is looked at.
pub open spec fn pumpkin_of(pairing: PairingView, text: Option<Seq<char>>) -> Result<
    PumpkinView,
    Failure,
> {
    match pairing.sidecar {
        None => Ok(PumpkinView { image: pairing.image, weight: None }),
        Some(_) => match text {
            None => Err(Failure::Unreadable),
            Some(t) => match weight_of(t) {
                Ok(w) => Ok(PumpkinView { image: pairing.image, weight: Some(w) }),
                Err(e) => Err(Failure::BadWeight(e)),
            },
        },
    }
}

/// A plan has one pairing for each image of the listing, and for nothing
/// else: the image of every pairing is an entry of the listing whose
/// extension is that of an image, and every such entry is the image of a
/// pairing.
pub proof fn lemma_plan_images(names: Seq<Seq<char>>)
    ensures
        plan_of(names).len() == images_of(names).len(),
        plan_of(names).len() <= names.len(),
        forall|i: int|
            0 <= i < plan_of(names).len() ==> {
                &&& names.contains((#[trigger] plan_of(names)[i]).image)
                &&& kind_of(plan_of(names)[i].image) == EntryKind::Image
                &&& plan_of(names)[i] == pairing_of(names, plan_of(names)[i].image)
            },
        forall|j: int|
            0 <= j < names.len() && kind_of(#[trigger] names[j]) == EntryKind::Image ==> exists|
                i: int,
            |
                0 <= i < plan_of(names).len() && (#[trigger] plan_of(names)[i]).image == names[j],
{
    let is_image = |n: Seq<char>| kind_of(n) == EntryKind::Image;
    let images = images_of(names);
    let plan = plan_of(names);
    names.lemma_filter_len(is_image);
    assert forall|i: int| 0 <= i < plan.len() implies {
        &&& names.contains((#[trigger] plan[i]).image)
        &&& kind_of(plan[i].image) == EntryKind::Image
        &&& plan[i] == pairing_of(names, plan[i].image)
    } by {
        names.lemma_filter_pred(is_image, i);
        assert(images.contains(images[i]));
        names.lemma_filter_contains_rev(is_image, images[i]);
    }
    assert forall|j: int|
        0 <= j < names.len() && kind_of(#[trigger] names[j]) == EntryKind::Image implies exists|
        i: int,
    |
        0 <= i < plan.len() && (#[trigger] plan[i]).image == names[j] by {
        names.lemma_filter_contains(is_image, j);
        let i = choose|i: int| 0 <= i < images.len() && images[i] == names[j];
        assert(plan[i].image == names[j]);
    }
}

/// An image is paired exactly when the listing holds an entry whose name
/// is, letter for letter, the stem of the image followed by `.weight`. The
/// case of the letters counts, in the stem and in the extension alike.
pub proof fn lemma_pairing_by_name(names: Seq<Seq<char>>, image: Seq<char>)
    requires
        kind_of(image) == EntryKind::Image,
    ensures
        pairing_of(names, image).image == image,
        pairing_of(names, image).sidecar == if names.contains(sidecar_of(image)) {
            Some(sidecar_of(image))
        } else {
            None
        },
{
    let is_sidecar = |n: Seq<char>| kind_of(n) == EntryKind::Sidecar;
    let wanted = sidecar_of(image);
    lemma_sidecar_of(image);
    if names.contains(wanted) {
        let j = choose|j: int| 0 <= j < names.len() && names[j] == wanted;
        names.lemma_filter_contains(is_sidecar, j);
    }
    if sidecars_of(names).contains(wanted) {
        names.lemma_filter_contains_rev(is_sidecar, wanted);
    }
}

/// Where no name occurs twice in a listing, no image occurs twice in its
/// plan.
pub proof fn lemma_distinct_images(names: Seq<Seq<char>>)
    requires
        names.no_duplicates(),
    ensures
        images_of(names).no_duplicates(),
        forall|i: int, j: int|
            0 <= i < j < plan_of(names).len() ==> (#[trigger] plan_of(names)[i]).image != (
            #[trigger] plan_of(names)[j]).image,
    decreases names.len(),
{
    let is_image = |n: Seq<char>| kind_of(n) == EntryKind::Image;
    reveal(Seq::filter);
    if names.len() > 0 {
        let rest = names.drop_last();
        let last = names.last();
        lemma_distinct_images(rest);
        if rest.filter(is_image).contains(last) {
            rest.lemma_filter_contains_rev(is_image, last);
            let k = choose|k: int| 0 <= k < rest.len() && rest[k] == last;
            assert(names[k] == names[names.len() - 1]);
        }
    }
}

/// A listing without entries has a plan without pairings.
pub proof fn lemma_empty_listing()
    ensures
        plan_of(Seq::<Seq<char>>::empty()) == Seq::<PairingView>::empty(),
{
    reveal(Seq::filter);
    assert(plan_of(Seq::<Seq<char>>::empty()) =~= Seq::<PairingView>::empty());
}

/// Whether `wanted` is among `list`.
pub fn contains_name(list: &Vec<String>, wanted: &String) -> (found: bool)
    ensures
        found == texts_of(list@).contains(wanted@),
{
    let mut i: usize = 0;
    while i < list.len()
        invariant
            i <= list.len(),
            forall|j: int| 0 <= j < i ==> texts_of(list@)[j] != wanted@,
        decreases list.len() - i,
    {
        if list[i] == *wanted {
            assert(texts_of(list@)[i as int] == wanted@);
            return true;
        }
        i += 1;
    }
    false
}

/// Sorts the entries of a listing into image candidates and sidecar
/// candidates. Each keeps the order of the listing; entries of neither kind
/// are left out.
pub fn partition_entries(names: &Vec<String>) -> (parts: (Vec<String>, Vec<String>))
    ensures
        texts_of(parts.0@) == images_of(texts_of(names@)),
        texts_of(parts.1@) == sidecars_of(texts_of(names@)),
{
    let ghost all = texts_of(names@);
    let mut images: Vec<String> = Vec::new();
    let mut sidecars: Vec<String> = Vec::new();
    proof {
        reveal(Seq::filter);
        assert(all.take(0) =~= Seq::<Seq<char>>::empty());
        assert(texts_of(images@) =~= images_of(all.take(0)));
        assert(texts_of(sidecars@) =~= sidecars_of(all.take(0)));
    }
    let mut i: usize = 0;
    while i < names.len()
        invariant
            i <= names.len(),
            all == texts_of(names@),
            texts_of(images@) == images_of(all.take(i as int)),
            texts_of(sidecars@) == sidecars_of(all.take(i as int)),
        decreases names.len() - i,
    {
        let kind = entry_kind(names[i].as_str());
        proof {
            let seen = all.take(i as int);
            assert(all.take(i + 1) =~= seen.push(all[i as int]));
            seen.lemma_filter_push(all[i as int], |n: Seq<char>| kind_of(n) == EntryKind::Image);
            seen.lemma_filter_push(
                all[i as int],
                |n: Seq<char>| kind_of(n) == EntryKind::Sidecar,
            );
        }
        match kind {
            EntryKind::Image => {
                let ghost before = images@;
                images.push(names[i].clone());
                assert(texts_of(images@) =~= texts_of(before).push(all[i as int]));
            },
            EntryKind::Sidecar => {
                let ghost before = sidecars@;
                sidecars.push(names[i].clone());
                assert(texts_of(sidecars@) =~= texts_of(before).push(all[i as int]));
            },
            EntryKind::Other => {},
        }
        i += 1;
    }
    assert(all.take(names.len() as int) =~= all);
    (images, sidecars)
}

/// Plans the scan of a directory from the names of its entries: which of
/// them are pumpkins, and which sidecar, if any, belongs to each.
pub fn plan_scan(names: &Vec<String>) -> (plan: Vec<Pairing>)
    ensures
        pairings_of(plan@) == plan_of(texts_of(names@)),
{
    let ghost all = texts_of(names@);
    let (images, sidecars) = partition_entries(names);
    let mut plan: Vec<Pairing> = Vec::new();
    let mut i: usize = 0;
    while i < images.len()
        invariant
            i <= images.len(),
            plan.len() == i,
            texts_of(images@) == images_of(all),
            texts_of(sidecars@) == sidecars_of(all),
            forall|j: int| 0 <= j < i ==> (#[trigger] plan@[j])@ == pairing_of(all, images_of(all)[j]),
        decreases images.len() - i,
    {
        let image = images[i].clone();
        assert(image@ == texts_of(images@)[i as int]);
        let wanted = sidecar_name(image.as_str());
        let sidecar = if contains_name(&sidecars, &wanted) {
            Some(wanted)
        } else {
            None
        };
        plan.push(Pairing { image, sidecar });
        i += 1;
    }
    assert(pairings_of(plan@) =~= plan_of(all));
    plan
}

/// The text at place `i` of `texts`. A place that the list does not have,
/// or that holds `None`, stands for a sidecar that could not be read.
pub open spec fn text_at(texts: Seq<Option<String>>, i: int) -> Option<Seq<char>> {
    if 0 <= i < texts.len() {
        match texts[i] {
            Some(t) => Some(t@),
            None => None,
        }
    } else {
        None
    }
}

/// The value of a text that may be missing.
pub open spec fn text_of(text: Option<&str>) -> Option<Seq<char>> {
    match text {
        Some(t) => Some(t@),
        None => None,
    }
}

/// Makes the pumpkin of one pairing. `text` is what was read from the
/// sidecar; it is looked at only where the pairing names one.
pub fn build_pumpkin(pairing: &Pairing, text: Option<&str>) -> (built: Result<Pumpkin, Failure>)
    ensures
        match built {
            Ok(pumpkin) => pumpkin_of(pairing@, text_of(text)) == Ok::<PumpkinView, Failure>(
                pumpkin@,
            ),
            Err(failure) => pumpkin_of(pairing@, text_of(text)) == Err::<PumpkinView, Failure>(
                failure,
            ),
        },
{
    let image = pairing.image.clone();
    if pairing.sidecar.is_none() {
        return Ok(Pumpkin { image, meta: None });
    }
    match text {
        None => Err(Failure::Unreadable),
        Some(t) => match parse_weight(t) {
            Ok(weight) => Ok(Pumpkin { image, meta: Some(PumpkinMeta { weight }) }),
            Err(e) => Err(Failure::BadWeight(e)),
        },
    }
}

/// Makes the pumpkins of a whole plan. `texts` holds, place for place, what
/// was read from the sidecars of the plan.
///
/// The pumpkins come out in the order of the plan. Where a pairing gives no
/// pumpkin, nothing is handed out but the first such failure.
pub fn assemble(plan: &Vec<Pairing>, texts: &Vec<Option<String>>) -> (made: Result<
    Vec<Pumpkin>,
    ScanError,
>)
    ensures
        match made {
            Ok(pumpkins) => {
                &&& pumpkins.len() == plan.len()
                &&& forall|i: int|
                    0 <= i < plan.len() ==> pumpkin_of(#[trigger] plan@[i]@, text_at(texts@, i))
                        == Ok::<PumpkinView, Failure>(pumpkins@[i]@)
            },
            Err(e) => {
                &&& e.index < plan.len()
                &&& pumpkin_of(plan@[e.index as int]@, text_at(texts@, e.index as int)) == Err::<
                    PumpkinView,
                    Failure,
                >(e.failure)
                &&& forall|i: int|
                    0 <= i < e.index ==> pumpkin_of(
                        #[trigger] plan@[i]@,
                        text_at(texts@, i),
                    ) is Ok
            },
        },
{
    let mut pumpkins: Vec<Pumpkin> = Vec::new();
    let mut i: usize = 0;
    while i < plan.len()
        invariant
            i <= plan.len(),
            pumpkins.len() == i,
            forall|j: int|
                0 <= j < i ==> pumpkin_of(#[trigger] plan@[j]@, text_at(texts@, j)) == Ok::<
                    PumpkinView,
                    Failure,
                >(pumpkins@[j]@),
        decreases plan.len() - i,
    {
        let text: Option<&str> = if i < texts.len() {
            match &texts[i] {
                Some(t) => Some(t.as_str()),
                None => None,
            }
        } else {
            None
        };
        assert(text_of(text) == text_at(texts@, i as int));
        match build_pumpkin(&plan[i], text) {
            Ok(pumpkin) => {
                pumpkins.push(pumpkin);
            },
            Err(failure) => {
                return Err(ScanError { index: i, failure });
            },
        }
        i += 1;
    }
    Ok(pumpkins)
}

} // verus!
