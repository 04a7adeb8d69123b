//! The gateway's model catalog and the choice of the run's model.

use vstd::prelude::*;
use vstd::string::*;

#[allow(unused_imports)]
use crate::text::join;

verus! {

/// A model that the gateway offers.
#[derive(Debug, PartialEq, Eq)]
pub struct ModelDescriptor {
    /// The text of the model's id, by which it is looked up.
    pub id: String,
    /// The name in the id.
    pub name: String,
    /// The size of its context, in tokens.
    pub context: u32,
}

/// A model as mathematics sees it.
pub struct ModelView {
    pub id: Seq<char>,
    pub name: Seq<char>,
    pub context: u32,
}

impl View for ModelDescriptor {
    type V = ModelView;

    open spec fn view(&self) -> ModelView {
        ModelView { id: self.id@, name: self.name@, context: self.context }
    }
}

/// The models that the gateway offers, in its order.
#[derive(Debug, PartialEq, Eq)]
pub struct ModelCatalog {
    pub models: Vec<ModelDescriptor>,
}

impl View for ModelCatalog {
    type V = Seq<ModelView>;

    open spec fn view(&self) -> Seq<ModelView> {
        Seq::new(self.models@.len(), |i: int| self.models@[i]@)
    }
}

/// A model that is asked for.
#[derive(Debug, PartialEq, Eq)]
pub struct ModelRequest {
    /// The name that it is asked for by.
    pub name: String,
    /// The text of the gateway id of that name.
    pub id: String,
}

/// A request as mathematics sees it.
pub struct RequestView {
    pub name: Seq<char>,
    pub id: Seq<char>,
}

impl View for ModelRequest {
    type V = RequestView;

    open spec fn view(&self) -> RequestView {
        RequestView { name: self.name@, id: self.id@ }
    }
}

/// The first model of `catalog` with this id.
pub open spec fn lookup(catalog: Seq<ModelView>, id: Seq<char>) -> Option<ModelView>
    decreases catalog.len(),
{
    if catalog.len() == 0 {
        None
    } else if catalog[0].id == id {
        Some(catalog[0])
    } else {
        lookup(catalog.drop_first(), id)
    }
}

/// The names in `catalog`.
pub open spec fn names(catalog: Seq<ModelView>) -> Seq<Seq<char>> {
    Seq::new(catalog.len(), |i: int| catalog[i].name)
}

/// The ids in `catalog`.
pub open spec fn ids(catalog: Seq<ModelView>) -> Seq<Seq<char>> {
    Seq::new(catalog.len(), |i: int| catalog[i].id)
}

/// The run's model: the requested one when there is a request, else the first
/// of the catalog; or the message about why there is none.
pub open spec fn selected(catalog: Seq<ModelView>, requested: Option<RequestView>) -> Result<
    ModelView,
    Seq<char>,
> {
    match requested {
        Some(request) => match lookup(catalog, request.id) {
            Some(model) => Ok(model),
            None => Err(
                "model `"@ + request.name + "` is not in the gateway catalog; available: "@ + join(
                    names(catalog),
                    ", "@,
                ),
            ),
        },
        None => if catalog.len() > 0 {
            Ok(catalog[0])
        } else {
            Err("the gateway catalog lists no models"@)
        },
    }
}

impl ModelCatalog {
    /// The first model with this id.
    pub fn get(&self, id: &String) -> (res: Option<&ModelDescriptor>)
        ensures
            match lookup(self@, id@) {
                Some(model) => res is Some && res->Some_0@ == model,
                None => res is None,
            },
    {
        let mut next: usize = 0;
        proof {
            assert(self@.skip(0) =~= self@);
        }
        while next < self.models.len()
            invariant
                next <= self.models@.len(),
                lookup(self@, id@) == lookup(self@.skip(next as int), id@),
            decreases self.models@.len() - next,
        {
            if self.models[next].id == *id {
                return Some(&self.models[next]);
            }
            proof {
                assert(self@.skip(next as int).drop_first() =~= self@.skip(next + 1));
            }
            next += 1;
        }
        None
    }

    /// The names of all models, with a comma between each two.
    pub fn available(&self) -> (text: String)
        ensures
            text@ == join(names(self@), ", "@),
    {
        let mut text = String::new();
        let mut next: usize = 0;
        let ghost all = names(self@);
        while next < self.models.len()
            invariant
                all == names(self@),
                next <= self.models@.len(),
                text@ == join(all.take(next as int), ", "@),
            decreases self.models@.len() - next,
        {
            if next > 0 {
                text.append(", ");
            }
            text.append(self.models[next].name.as_str());
            proof {
                let taken = all.take(next + 1);
                assert(taken.drop_last() =~= all.take(next as int));
                assert(taken.last() == self.models@[next as int].name@);
                assert(text@ =~= join(taken, ", "@));
            }
            next += 1;
        }
        proof {
            assert(all.take(next as int) =~= all);
        }
        text
    }
}

impl ModelDescriptor {
    /// The same model again.
    fn copy(&self) -> (model: ModelDescriptor)
        ensures
            model@ == self@,
    {
        ModelDescriptor {
            id: self.id.clone(),
            name: self.name.clone(),
            context: self.context,
        }
    }
}

/// The view of an optional request.
pub open spec fn optional_request(request: Option<&ModelRequest>) -> Option<RequestView> {
    match request {
        Some(request) => Some(request@),
        None => None,
    }
}

/// Picks the run's model from `catalog`: the requested id when given, else the
/// catalog's first entry. An id absent from the catalog is an error listing
/// what the gateway offers; an empty catalog is an error too.
pub fn select_model(catalog: &ModelCatalog, requested: Option<&ModelRequest>) -> (res: Result<
    ModelDescriptor,
    String,
>)
    ensures
        match selected(catalog@, optional_request(requested)) {
            Ok(model) => res is Ok && res->Ok_0@ == model,
            Err(message) => res is Err && res->Err_0@ == message,
        },
{
    match requested {
        Some(request) => match catalog.get(&request.id) {
            Some(model) => Ok(model.copy()),
            None => Err(
                "model `".to_owned().concat(request.name.as_str()).concat(
                    "` is not in the gateway catalog; available: ",
                ).concat(catalog.available().as_str()),
            ),
        },
        None => if catalog.models.len() > 0 {
            Ok(catalog.models[0].copy())
        } else {
            Err("the gateway catalog lists no models".to_owned())
        },
    }
}

/// Looking an id up finds a model exactly where one has that id.
pub proof fn lemma_lookup(catalog: Seq<ModelView>, id: Seq<char>)
    ensures
        lookup(catalog, id) is Some <==> ids(catalog).contains(id),
        lookup(catalog, id) matches Some(model) ==> model.id == id && catalog.contains(model),
    decreases catalog.len(),
{
    if catalog.len() > 0 {
        assert(ids(catalog)[0] == catalog[0].id);
        if catalog[0].id != id {
            let rest = catalog.drop_first();
            lemma_lookup(rest, id);
            if ids(rest).contains(id) {
                let i = choose|i: int| 0 <= i < ids(rest).len() && ids(rest)[i] == id;
                assert(ids(catalog)[i + 1] == id);
            }
            if ids(catalog).contains(id) {
                let i = choose|i: int|
                    0 <= i < ids(catalog).len() && ids(catalog)[i] == id;
                assert(ids(rest)[i - 1] == id);
            }
            if lookup(rest, id) is Some {
                let model = lookup(rest, id)->Some_0;
                let i = choose|i: int| 0 <= i < rest.len() && rest[i] == model;
                assert(catalog[i + 1] == model);
            }
        } else {
            assert(catalog.contains(catalog[0]));
        }
    }
}

/// A model is selected exactly where there is one to select, it is one of the
/// catalog, and it is the requested one where there is a request and the
/// catalog's first where there is none.
pub proof fn law_selection(catalog: Seq<ModelView>, requested: Option<RequestView>)
    ensures
        selected(catalog, requested) is Ok <==> match requested {
            Some(request) => ids(catalog).contains(request.id),
            None => catalog.len() > 0,
        },
        selected(catalog, requested) matches Ok(model) ==> {
            &&& catalog.contains(model)
            &&& requested matches Some(request) ==> model.id == request.id
            &&& requested is None ==> model == catalog[0]
        },
{
    match requested {
        Some(request) => {
            lemma_lookup(catalog, request.id);
        },
        None => {
            if catalog.len() > 0 {
                assert(catalog.contains(catalog[0]));
            }
        },
    }
}

/// The message about a model that the gateway does not offer names it and lists
/// every one that the gateway does offer.
pub proof fn law_absent_model_lists_the_catalog(
    catalog: Seq<ModelView>,
    request: RequestView,
    offered: Seq<char>,
)
    requires
        !ids(catalog).contains(request.id),
        names(catalog).contains(offered),
    ensures
        selected(catalog, Some(request)) matches Err(message) && {
            &&& ("model `"@ + request.name + "`"@).is_prefix_of(message)
            &&& holds(message, offered)
        },
{
    lemma_lookup(catalog, request.id);
    let head = "model `"@ + request.name + "` is not in the gateway catalog; available: "@;
    let all = names(catalog);
    let i = choose|i: int| 0 <= i < all.len() && all[i] == offered;
    lemma_join_holds(all, ", "@, i);
    let list = join(all, ", "@);
    let (before, after) = choose|before: Seq<char>, after: Seq<char>|
        list == #[trigger] (before + offered + after);
    assert(head + list =~= (head + before) + offered + after);
    reveal_strlit("`");
    reveal_strlit("` is not in the gateway catalog; available: ");
    let start = "model `"@ + request.name + "`"@;
    assert(start =~= (head + list).take(start.len() as int));
}

/// Whether `part` stands somewhere in `text`.
pub open spec fn holds(text: Seq<char>, part: Seq<char>) -> bool {
    exists|before: Seq<char>, after: Seq<char>| text == #[trigger] (before + part + after)
}

/// Joined items are all there.
proof fn lemma_join_holds(list: Seq<Seq<char>>, sep: Seq<char>, i: int)
    requires
        0 <= i < list.len(),
    ensures
        holds(join(list, sep), list[i]),
    decreases list.len(),
{
    let whole = join(list, sep);
    if list.len() == 1 {
        assert(whole =~= Seq::<char>::empty() + list[i] + Seq::<char>::empty());
    } else if i == list.len() - 1 {
        assert(whole =~= (join(list.drop_last(), sep) + sep) + list[i] + Seq::<char>::empty());
    } else {
        let shorter = list.drop_last();
        lemma_join_holds(shorter, sep, i);
        assert(shorter[i] == list[i]);
        let (before, after) = choose|before: Seq<char>, after: Seq<char>|
            join(shorter, sep) == #[trigger] (before + list[i] + after);
        assert(whole =~= before + list[i] + (after + sep + list.last()));
    }
}

/// The requested model is the first of the catalog with the requested id, and
/// all of it.
pub proof fn law_requested_model_is_the_first_of_its_id(
    catalog: Seq<ModelView>,
    request: RequestView,
    i: int,
)
    requires
        0 <= i < catalog.len(),
        catalog[i].id == request.id,
        forall|j: int| 0 <= j < i ==> catalog[j].id != request.id,
    ensures
        lookup(catalog, request.id) == Some(catalog[i]),
        selected(catalog, Some(request)) == Ok::<_, Seq<char>>(catalog[i]),
    decreases catalog.len(),
{
    if i > 0 {
        assert(catalog[0].id != request.id);
        assert forall|j: int| 0 <= j < i - 1 implies catalog.drop_first()[j].id != request.id by {
            assert(catalog[j + 1].id != request.id);
        }
        law_requested_model_is_the_first_of_its_id(catalog.drop_first(), request, i - 1);
    }
}

/// What is said where there is no model to select: which one was asked for, and
/// the names of all that there are, in their order.
pub proof fn law_no_model_is_told(
    catalog: Seq<ModelView>,
    request: RequestView,
    offered: Seq<Seq<char>>,
)
    requires
        forall|i: int| 0 <= i < catalog.len() ==> (#[trigger] catalog[i]).id != request.id,
        offered.len() == catalog.len(),
        forall|i: int| 0 <= i < catalog.len() ==> #[trigger] offered[i] == catalog[i].name,
    ensures
        selected(catalog, Some(request)) == Err::<ModelView, _>(
            "model `"@ + request.name + "` is not in the gateway catalog; available: "@ + join(
                offered,
                ", "@,
            ),
        ),
        catalog.len() == 0 ==> selected(catalog, None) == Err::<ModelView, _>(
            "the gateway catalog lists no models"@,
        ),
{
    lemma_lookup(catalog, request.id);
    assert(offered =~= names(catalog));
}

/// A catalog is seen whole: every model in its place, with its id, its name and
/// its context.
pub proof fn law_catalog_is_seen_whole(catalog: ModelCatalog)
    ensures
        catalog@.len() == catalog.models@.len(),
        forall|i: int| #![trigger catalog@[i]]
            0 <= i < catalog@.len() ==> {
                &&& catalog@[i].id == catalog.models@[i].id@
                &&& catalog@[i].name == catalog.models@[i].name@
                &&& catalog@[i].context == catalog.models@[i].context
            },
{
}

} // verus!
