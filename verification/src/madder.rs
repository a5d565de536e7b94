use vstd::prelude::*;
use crate::api_server::{ApiServer, ParamHolder, missing_param_text};
use crate::component::{Component, ComponentExt, Effect, HaveComponent, same_source, last_update, updates_known};
use crate::json::Json;
use crate::project::{Layer, Project};
use crate::repository::{is_uuid_v4_text, Entity, MutRepository, Repository, RepositoryHashMapImpl, lists_entries, table_of, lemma_table_of_value};
use crate::time::{ClockTime, MSECOND_NS};
use crate::vec_repository::HaveRepositoryImpl;

verus! {

/// A project's components kept in a vector, in the order they were added.
pub struct ProjectImpl {
    component_repo_impl: Vec<ComponentExt>,
}

impl ProjectImpl {
    /// A project with no component.
    pub fn new() -> (r: ProjectImpl)
        ensures
            r.elements_spec() == Seq::<ComponentExt>::empty(),
    {
        ProjectImpl { component_repo_impl: Vec::new() }
    }
}

impl HaveRepositoryImpl<ComponentExt> for ProjectImpl {
    closed spec fn elements_spec(&self) -> Seq<ComponentExt> {
        self.component_repo_impl@
    }

    fn elements(&self) -> (r: &Vec<ComponentExt>) {
        &self.component_repo_impl
    }

    fn elements_mut(&mut self) -> (r: &mut Vec<ComponentExt>) {
        &mut self.component_repo_impl
    }
}

/// The components of a project, by key.
pub struct ComponentRepositoryImpl {
    repository: RepositoryHashMapImpl<ComponentExt>,
}

impl ComponentRepositoryImpl {
    /// An empty repository.
    pub fn new() -> (r: ComponentRepositoryImpl)
        ensures
            r.wf(),
            r.entries() == Map::<Seq<char>, ComponentExt>::empty(),
    {
        ComponentRepositoryImpl { repository: RepositoryHashMapImpl::new() }
    }

    /// Replaces the whole table with the given keyed components.
    pub fn load_table(&mut self, table: Vec<Entity<ComponentExt, String>>)
        ensures
            final(self).wf(),
            final(self).entries() == table_of(table@),
    {
        self.repository.load_table(table)
    }
}

impl Repository<ComponentExt> for ComponentRepositoryImpl {
    closed spec fn entries(&self) -> Map<Seq<char>, ComponentExt> {
        self.repository.entries()
    }

    closed spec fn wf(&self) -> bool {
        self.repository.wf()
    }

    fn create(&mut self, entity: ComponentExt) -> (key: String)
        ensures
            is_uuid_v4_text(key@),
    {
        self.repository.create(entity)
    }

    fn get(&self, key: &str) -> (r: &ComponentExt) {
        self.repository.get(key)
    }

    fn list(&self) -> (r: Vec<Entity<&ComponentExt, &str>>) {
        self.repository.list()
    }

    fn update(&mut self, key: String, entity: ComponentExt) {
        self.repository.update(key, entity)
    }

    fn delete(&mut self, key: &str) {
        self.repository.delete(key)
    }
}

impl MutRepository<ComponentExt> for ComponentRepositoryImpl {
    fn get_mut(&mut self, key: &str) -> (r: &mut ComponentExt) {
        self.repository.get_mut(key)
    }
}

/// The effects of a project, by key.
pub struct EffectRepositoryImpl {
    repository: RepositoryHashMapImpl<Effect>,
}

impl EffectRepositoryImpl {
    /// An empty repository.
    pub fn new() -> (r: EffectRepositoryImpl)
        ensures
            r.wf(),
            r.entries() == Map::<Seq<char>, Effect>::empty(),
    {
        EffectRepositoryImpl { repository: RepositoryHashMapImpl::new() }
    }

    /// Replaces the whole table with the given keyed effects.
    pub fn load_table(&mut self, table: Vec<Entity<Effect, String>>)
        ensures
            final(self).wf(),
            final(self).entries() == table_of(table@),
    {
        self.repository.load_table(table)
    }
}

impl Repository<Effect> for EffectRepositoryImpl {
    closed spec fn entries(&self) -> Map<Seq<char>, Effect> {
        self.repository.entries()
    }

    closed spec fn wf(&self) -> bool {
        self.repository.wf()
    }

    fn create(&mut self, entity: Effect) -> (key: String)
        ensures
            is_uuid_v4_text(key@),
    {
        self.repository.create(entity)
    }

    fn get(&self, key: &str) -> (r: &Effect) {
        self.repository.get(key)
    }

    fn list(&self) -> (r: Vec<Entity<&Effect, &str>>) {
        self.repository.list()
    }

    fn update(&mut self, key: String, entity: Effect) {
        self.repository.update(key, entity)
    }

    fn delete(&mut self, key: &str) {
        self.repository.delete(key)
    }
}

impl MutRepository<Effect> for EffectRepositoryImpl {
    fn get_mut(&mut self, key: &str) -> (r: &mut Effect) {
        self.repository.get_mut(key)
    }
}

/// Whether a component is on screen at `pos`: from its start to its end,
/// both included.
pub open spec fn shown_at(c: ComponentExt, pos: int) -> bool {
    c.component_view().start_time.nanos <= pos <= c.component_view().start_time.nanos
        + c.component_view().length.nanos
}

/// The components of one layer that are on screen at `pos`, in the
/// layer's order.
pub open spec fn layer_shown(
    ids: Seq<String>,
    comps: Map<Seq<char>, ComponentExt>,
    pos: int,
) -> Seq<ComponentExt>
    decreases ids.len(),
{
    if ids.len() == 0 {
        Seq::<ComponentExt>::empty()
    } else {
        let prev = layer_shown(ids.drop_last(), comps, pos);
        let c = comps[ids.last()@];
        if shown_at(c, pos) {
            prev.push(c)
        } else {
            prev
        }
    }
}

/// The components on screen at `pos`, in the order they are drawn: the
/// last layer first, each layer in its own order.
pub open spec fn screen_order(
    layers: Seq<Layer>,
    comps: Map<Seq<char>, ComponentExt>,
    pos: int,
) -> Seq<ComponentExt>
    decreases layers.len(),
{
    if layers.len() == 0 {
        Seq::<ComponentExt>::empty()
    } else {
        screen_order(layers.skip(1), comps, pos) + layer_shown(layers[0].ids(), comps, pos)
    }
}

/// Every component of one layer's shown list is on screen at `pos`.
pub proof fn lemma_layer_shown_visible(ids: Seq<String>, comps: Map<Seq<char>, ComponentExt>, pos: int)
    ensures
        forall|i: int| 0 <= i < layer_shown(ids, comps, pos).len() ==> shown_at(#[trigger] layer_shown(ids, comps, pos)[i], pos),
    decreases ids.len(),
{
    if ids.len() > 0 {
        lemma_layer_shown_visible(ids.drop_last(), comps, pos);
        let prev = layer_shown(ids.drop_last(), comps, pos);
        let c = comps[ids.last()@];
        if shown_at(c, pos) {
            assert forall|i: int| 0 <= i < prev.push(c).len() implies shown_at(#[trigger] prev.push(c)[i], pos) by {
                if i < prev.len() {
                    assert(prev.push(c)[i] == prev[i]);
                }
            }
        }
    }
}

/// Only components that are on screen at a position are drawn at it.
pub proof fn law_only_shown_components_drawn(layers: Seq<Layer>, comps: Map<Seq<char>, ComponentExt>, pos: int)
    ensures
        forall|i: int| 0 <= i < screen_order(layers, comps, pos).len() ==> shown_at(#[trigger] screen_order(layers, comps, pos)[i], pos),
    decreases layers.len(),
{
    if layers.len() > 0 {
        law_only_shown_components_drawn(layers.skip(1), comps, pos);
        lemma_layer_shown_visible(layers[0].ids(), comps, pos);
        let a = screen_order(layers.skip(1), comps, pos);
        let b = layer_shown(layers[0].ids(), comps, pos);
        assert forall|i: int| 0 <= i < (a + b).len() implies shown_at(#[trigger] (a + b)[i], pos) by {
            if i < a.len() {
                assert((a + b)[i] == a[i]);
            } else {
                assert((a + b)[i] == b[i - a.len()]);
            }
        }
    }
}

/// A layer's shown list is built piece by piece: the components of the
/// first keys, then those of the rest, each kept only if on screen.
pub proof fn law_layer_shown_split(ids: Seq<String>, more: Seq<String>, comps: Map<Seq<char>, ComponentExt>, pos: int)
    ensures
        layer_shown(ids + more, comps, pos) == layer_shown(ids, comps, pos) + layer_shown(more, comps, pos),
        layer_shown(Seq::<String>::empty(), comps, pos) == Seq::<ComponentExt>::empty(),
        more.len() == 1 ==> layer_shown(more, comps, pos) == if shown_at(comps[more[0]@], pos) {
            seq![comps[more[0]@]]
        } else {
            Seq::<ComponentExt>::empty()
        },
    decreases more.len(),
{
    if more.len() == 0 {
        assert(ids + more =~= ids);
        assert(layer_shown(ids, comps, pos) + Seq::<ComponentExt>::empty() =~= layer_shown(ids, comps, pos));
    } else {
        law_layer_shown_split(ids, more.drop_last(), comps, pos);
        assert((ids + more).drop_last() =~= ids + more.drop_last());
        assert((ids + more).last() == more.last());
        let p = layer_shown(ids, comps, pos);
        let q = layer_shown(more.drop_last(), comps, pos);
        let c = comps[more.last()@];
        assert((p + q).push(c) =~= p + q.push(c));
        if more.len() == 1 {
            assert(more.drop_last() =~= Seq::<String>::empty());
            assert(Seq::<ComponentExt>::empty().push(c) =~= seq![c]);
        }
    }
}

/// A layer added below the others is drawn first, under everything
/// already there; a project with no layer draws nothing.
pub proof fn law_screen_order_new_layer(layers: Seq<Layer>, l: Layer, comps: Map<Seq<char>, ComponentExt>, pos: int)
    ensures
        screen_order(Seq::<Layer>::empty(), comps, pos) == Seq::<ComponentExt>::empty(),
        screen_order(layers.push(l), comps, pos) == layer_shown(l.ids(), comps, pos) + screen_order(layers, comps, pos),
    decreases layers.len(),
{
    let ll = layers.push(l);
    if layers.len() == 0 {
        assert(ll.skip(1) =~= Seq::<Layer>::empty());
        assert(ll[0] == l);
        assert(screen_order(Seq::<Layer>::empty(), comps, pos) == Seq::<ComponentExt>::empty());
        assert(layers =~= Seq::<Layer>::empty());
        assert(screen_order(ll, comps, pos) == screen_order(ll.skip(1), comps, pos) + layer_shown(ll[0].ids(), comps, pos));
        assert(Seq::<ComponentExt>::empty() + layer_shown(l.ids(), comps, pos) =~= layer_shown(l.ids(), comps, pos));
        assert(layer_shown(l.ids(), comps, pos) + Seq::<ComponentExt>::empty() =~= layer_shown(l.ids(), comps, pos));
    } else {
        law_screen_order_new_layer(layers.skip(1), l, comps, pos);
        assert(ll.skip(1) =~= layers.skip(1).push(l));
        assert(ll[0] == layers[0]);
        let a = layer_shown(l.ids(), comps, pos);
        let b = screen_order(layers.skip(1), comps, pos);
        let c = layer_shown(layers[0].ids(), comps, pos);
        assert(screen_order(ll, comps, pos) == screen_order(ll.skip(1), comps, pos) + layer_shown(ll[0].ids(), comps, pos));
        assert(screen_order(layers, comps, pos) == b + c);
        assert((a + b) + c =~= a + (b + c));
    }
}

/// Whether every component key in the layers is held, with an end time
/// that fits in the clock.
pub open spec fn layers_resolved(layers: Seq<Layer>, comps: Map<Seq<char>, ComponentExt>) -> bool {
    forall|l: int, i: int|
        0 <= l < layers.len() && 0 <= i < layers[l].ids().len() ==> {
            let k = (#[trigger] layers[l].ids()[i])@;
            &&& comps.contains_key(k)
            &&& comps[k].component_view().start_time.nanos + comps[k].component_view().length.nanos
                <= u64::MAX
        }
}

/// The name of the path parameter that holds a component key.
pub open spec fn component_param() -> Seq<char> {
    "component_id"@
}

/// The editor's state: the project, its components and effects, and the
/// request router.
pub struct Madder {
    pub project: Project,
    pub component_repo: ComponentRepositoryImpl,
    pub effect_repo: EffectRepositoryImpl,
    pub server: ApiServer,
}

impl Madder {
    /// Whether the repositories and the router are well formed.
    pub open spec fn wf(&self) -> bool {
        &&& forall|k: Seq<char>| #[trigger] self.comps().contains_key(k) ==> self.comps()[k].component_view().attributes.wf()
        &&& self.component_repo.wf()
        &&& self.effect_repo.wf()
        &&& self.server.wf()
    }

    /// The components, by key.
    pub open spec fn comps(&self) -> Map<Seq<char>, ComponentExt> {
        self.component_repo.entries()
    }

    /// The effects, by key.
    pub open spec fn effects(&self) -> Map<Seq<char>, Effect> {
        self.effect_repo.entries()
    }

    /// An editor with a 640x480 project of 100 ms, at its start, with one
    /// empty layer and no component or effect.
    pub fn new() -> (r: Madder)
        ensures
            r.wf(),
            r.project.layers@.len() == 1,
            r.project.layers@[0].ids() == Seq::<String>::empty(),
            r.project.size == (640i32, 480i32),
            r.project.length.nanos == 100 * MSECOND_NS,
            r.project.position.nanos == 0,
            r.comps() == Map::<Seq<char>, ComponentExt>::empty(),
            r.effects() == Map::<Seq<char>, Effect>::empty(),
    {
        Madder {
            project: Project::new(
                640,
                480,
                ClockTime::from_mseconds(100),
                ClockTime::from_nseconds(0),
            ),
            component_repo: ComponentRepositoryImpl::new(),
            effect_repo: EffectRepositoryImpl::new(),
            server: ApiServer::new(),
        }
    }

    /// Every component with its key.
    pub fn mapper_list_component(&self) -> (r: Vec<Entity<&ComponentExt, &str>>)
        requires
            self.wf(),
        ensures
            lists_entries(r@, self.comps()),
    {
        self.component_repo.list()
    }

    /// Every effect with its key.
    pub fn mapper_list_effect(&self) -> (r: Vec<Entity<&Effect, &str>>)
        requires
            self.wf(),
        ensures
            lists_entries(r@, self.effects()),
    {
        self.effect_repo.list()
    }

    /// The component named by the path parameter `component_id`.
    pub fn mapper_get_component(&self, params: &ParamHolder) -> (r: Result<&ComponentExt, String>)
        requires
            self.wf(),
            params.params().contains_key(component_param()) ==> self.comps().contains_key(
                params.params()[component_param()],
            ),
        ensures
            match r {
                Ok(c) => params.params().contains_key(component_param()) && *c == self.comps()[params.params()[component_param()]],
                Err(e) => !params.params().contains_key(component_param()) && e@ == missing_param_text(component_param()),
            },
    {
        let component_id = params.find("component_id")?;
        Ok(self.component_repo.get(component_id))
    }

    /// The attribute `key` of the component `component_id`, both named by
    /// path parameters.
    pub fn mapper_get_component_attribute(&self, params: &ParamHolder) -> (r: Result<&Json, String>)
        requires
            self.wf(),
            params.params().contains_key(component_param()) ==> {
                let c = self.comps()[params.params()[component_param()]];
                &&& self.comps().contains_key(params.params()[component_param()])
                &&& params.params().contains_key("key"@) ==> c.component_view().attributes.entries().contains_key(
                    params.params()["key"@],
                )
            },
        ensures
            match r {
                Ok(v) => {
                    &&& params.params().contains_key(component_param())
                    &&& params.params().contains_key("key"@)
                    &&& *v == self.comps()[params.params()[component_param()]].component_view().attributes.entries()[params.params()["key"@]]
                },
                Err(e) => if params.params().contains_key(component_param()) {
                    !params.params().contains_key("key"@) && e@ == missing_param_text("key"@)
                } else {
                    e@ == missing_param_text(component_param())
                },
            },
    {
        let component_id = params.find("component_id")?;
        let component = self.component_repo.get(component_id);
        let key = params.find("key")?;
        Ok(component.component().attributes.get(key))
    }

    /// The effects of the component `component_id`, in the component's order.
    pub fn mapper_list_component_effect(&self, params: &ParamHolder) -> (r: Result<Vec<&Effect>, String>)
        requires
            self.wf(),
            params.params().contains_key(component_param()) ==> {
                let c = self.comps()[params.params()[component_param()]];
                &&& self.comps().contains_key(params.params()[component_param()])
                &&& forall|i: int|
                    0 <= i < c.component_view().effect@.len() ==> self.effects().contains_key(
                        (#[trigger] c.component_view().effect@[i])@,
                    )
            },
        ensures
            match r {
                Ok(v) => {
                    let ids = self.comps()[params.params()[component_param()]].component_view().effect@;
                    &&& params.params().contains_key(component_param())
                    &&& v@.len() == ids.len()
                    &&& forall|i: int| 0 <= i < v@.len() ==> *(#[trigger] v@[i]) == self.effects()[ids[i]@]
                },
                Err(e) => !params.params().contains_key(component_param()) && e@ == missing_param_text(component_param()),
            },
    {
        let component_id = params.find("component_id")?;
        let ids = &self.component_repo.get(component_id).component().effect;
        let mut out: Vec<&Effect> = Vec::new();
        let mut i: usize = 0;
        while i < ids.len()
            invariant
                self.wf(),
                i <= ids@.len(),
                out@.len() == i,
                forall|j: int| 0 <= j < ids@.len() ==> self.effects().contains_key((#[trigger] ids@[j])@),
                forall|j: int| 0 <= j < i ==> *(#[trigger] out@[j]) == self.effects()[ids@[j]@],
            decreases ids@.len() - i,
        {
            out.push(self.effect_repo.get(ids[i].as_str()));
            i = i + 1;
        }
        Ok(out)
    }

    /// The effect at position `index` of the component `component_id`.
    pub fn mapper_get_component_effect(&self, params: &ParamHolder) -> (r: Result<&Effect, String>)
        requires
            self.wf(),
            params.params().contains_key(component_param()) ==> {
                let c = self.comps()[params.params()[component_param()]];
                &&& self.comps().contains_key(params.params()[component_param()])
                &&& params.params().contains_key("index"@) ==> match crate::parse::spec_parse_usize(params.params()["index"@]) {
                    Some(n) => n < c.component_view().effect@.len() && self.effects().contains_key(
                        c.component_view().effect@[n as int]@,
                    ),
                    None => true,
                }
            },
        ensures
            match r {
                Ok(e) => {
                    let c = self.comps()[params.params()[component_param()]];
                    &&& params.params().contains_key(component_param())
                    &&& params.params().contains_key("index"@)
                    &&& crate::parse::spec_parse_usize(params.params()["index"@]) matches Some(n)
                        && *e == self.effects()[c.component_view().effect@[n as int]@]
                },
                Err(e) => if !params.params().contains_key(component_param()) {
                    e@ == missing_param_text(component_param())
                } else if !params.params().contains_key("index"@) {
                    e@ == missing_param_text("index"@)
                } else {
                    crate::parse::spec_parse_usize(params.params()["index"@]) is None
                        && e@ == crate::parse::usize_parse_error_text(params.params()["index"@])
                },
            },
    {
        let component_id = params.find("component_id")?;
        let index: usize = params.find_as_usize("index")?;
        let effect_id = &self.component_repo.get(component_id).component().effect[index];
        Ok(self.effect_repo.get(effect_id.as_str()))
    }

    /// Stores a new component and adds its key at the end of the first layer.
    pub fn mapper_create_component(&mut self, entity: ComponentExt) -> (r: Result<(), String>)
        requires
            old(self).wf(),
            old(self).project.layers@.len() > 0,
            entity.component_view().attributes.wf(),
        ensures
            final(self).wf(),
            final(self).project.size == old(self).project.size,
            final(self).project.length == old(self).project.length,
            final(self).project.position == old(self).project.position,
            final(self).server == old(self).server,
            r is Ok,
            exists|key: String| {
                &&& #[trigger] final(self).comps() == old(self).comps().insert(key@, entity)
                &&& is_uuid_v4_text(key@)
                &&& final(self).project.layers@[0].ids() == old(self).project.layers@[0].ids().push(key)
            },
            final(self).project.layers@.len() == old(self).project.layers@.len(),
            forall|i: int| 1 <= i < final(self).project.layers@.len() ==> (#[trigger] final(self).project.layers@[i]) == old(self).project.layers@[i],
            final(self).effects() == old(self).effects(),
    {
        let key = self.component_repo.create(entity);
        let ghost k = key;
        self.project.add_component_at(0, key);
        assert(final(self).comps() == old(self).comps().insert(k@, entity));
        Ok(())
    }

    /// Removes the component named by the path parameter `component_id`.
    /// Its key stays in the layers.
    pub fn mapper_delete_component(&mut self, params: &ParamHolder) -> (r: Result<(), String>)
        requires
            old(self).wf(),
            params.params().contains_key(component_param()),
        ensures
            final(self).wf(),
            final(self).project.size == old(self).project.size,
            final(self).project.length == old(self).project.length,
            final(self).project.position == old(self).project.position,
            final(self).server == old(self).server,
            r is Ok,
            final(self).comps() == old(self).comps().remove(params.params()[component_param()]),
            final(self).effects() == old(self).effects(),
            final(self).project.layers@ == old(self).project.layers@,
    {
        let component_id = match params.find("component_id") {
            Ok(id) => id,
            Err(_) => {
                proof {
                    assert(false);
                }
                return Ok(());
            },
        };
        self.component_repo.delete(component_id);
        proof {
            assert forall|k: Seq<char>| #[trigger] final(self).comps().contains_key(k) implies final(self).comps()[k].component_view().attributes.wf() by {
                assert(old(self).comps().contains_key(k));
            }
        }
        Ok(())
    }

    /// Sets the attribute `key` of the component `component_id`, both named
    /// by path parameters, to `entity`.
    pub fn mapper_update_component_attribute(&mut self, params: &ParamHolder, entity: Json) -> (r: Result<(), String>)
        requires
            old(self).wf(),
            params.params().contains_key(component_param()) ==> old(self).comps().contains_key(
                params.params()[component_param()],
            ),
        ensures
            final(self).wf(),
            final(self).project.size == old(self).project.size,
            final(self).project.length == old(self).project.length,
            final(self).project.position == old(self).project.position,
            final(self).server == old(self).server,
            final(self).effects() == old(self).effects(),
            final(self).project.layers@ == old(self).project.layers@,
            match r {
                Ok(()) => {
                    let id = params.params()[component_param()];
                    let before = old(self).comps()[id];
                    let after = final(self).comps()[id];
                    &&& params.params().contains_key(component_param())
                    &&& params.params().contains_key("key"@)
                    &&& final(self).comps().dom() == old(self).comps().dom()
                    &&& forall|k: Seq<char>| k != id && #[trigger] old(self).comps().contains_key(k) ==> final(self).comps()[k] == old(self).comps()[k]
                    &&& same_source(before, after)
                    &&& after.component_view().attributes.entries() == before.component_view().attributes.entries().insert(params.params()["key"@], entity)
                    &&& after.component_view().start_time == before.component_view().start_time
                    &&& after.component_view().length == before.component_view().length
                    &&& after.component_view().effect == before.component_view().effect
                },
                Err(e) => {
                    &&& final(self).comps() == old(self).comps()
                    &&& if params.params().contains_key(component_param()) {
                        !params.params().contains_key("key"@) && e@ == missing_param_text("key"@)
                    } else {
                        e@ == missing_param_text(component_param())
                    }
                },
            },
    {
        let component_id = params.find("component_id")?;
        let key = params.find("key")?;
        let ghost id = component_id@;
        proof {
            assert(old(self).comps().contains_key(id));
        }
        let component = self.component_repo.get_mut(component_id);
        let inner = component.component_mut();
        inner.attributes.update(key.to_owned(), entity);
        proof {
            assert forall|k: Seq<char>| #[trigger] final(self).comps().contains_key(k) implies final(self).comps()[k].component_view().attributes.wf() by {
                if k != id {
                    assert(old(self).comps().contains_key(k));
                }
            }
        }
        Ok(())
    }

    /// Stores a new effect (`entity`, as it was read from the request) and
    /// adds its key at the end of the effects of the component
    /// `component_id`.
    pub fn mapper_create_component_effect(&mut self, params: &ParamHolder, entity: Result<Effect, String>) -> (r: Result<(), String>)
        requires
            old(self).wf(),
            params.params().contains_key(component_param()) ==> old(self).comps().contains_key(
                params.params()[component_param()],
            ),
        ensures
            final(self).wf(),
            final(self).project.size == old(self).project.size,
            final(self).project.length == old(self).project.length,
            final(self).project.position == old(self).project.position,
            final(self).server == old(self).server,
            final(self).project.layers@ == old(self).project.layers@,
            match r {
                Ok(()) => {
                    let id = params.params()[component_param()];
                    let before = old(self).comps()[id];
                    let after = final(self).comps()[id];
                    &&& params.params().contains_key(component_param())
                    &&& entity matches Ok(e) && exists|k: String| {
                        &&& #[trigger] final(self).effects() == old(self).effects().insert(k@, e)
                        &&& is_uuid_v4_text(k@)
                        &&& after.component_view().effect@ == before.component_view().effect@.push(k)
                    }
                    &&& final(self).comps().dom() == old(self).comps().dom()
                    &&& forall|k: Seq<char>| k != id && #[trigger] old(self).comps().contains_key(k) ==> final(self).comps()[k] == old(self).comps()[k]
                    &&& same_source(before, after)
                    &&& after.component_view().attributes == before.component_view().attributes
                    &&& after.component_view().start_time == before.component_view().start_time
                    &&& after.component_view().length == before.component_view().length
                },
                Err(e) => {
                    &&& final(self).comps() == old(self).comps()
                    &&& final(self).effects() == old(self).effects()
                    &&& if params.params().contains_key(component_param()) {
                        entity matches Err(msg) && e == msg
                    } else {
                        e@ == missing_param_text(component_param())
                    }
                },
            },
    {
        let component_id = params.find("component_id")?;
        let effect = entity?;
        let ghost id = component_id@;
        let effect_id = self.effect_repo.create(effect);
        let ghost k = effect_id;
        let component = self.component_repo.get_mut(component_id);
        let inner = component.component_mut();
        inner.effect.push(effect_id);
        proof {
            assert forall|q: Seq<char>| #[trigger] final(self).comps().contains_key(q) implies final(self).comps()[q].component_view().attributes.wf() by {
                assert(old(self).comps().contains_key(q));
            }
            assert(final(self).effects() == old(self).effects().insert(k@, effect));
        }
        Ok(())
    }

    /// Stores a new effect (`entity`, as it was read from the request) and
    /// inserts its key at position `index` of the effects of the component
    /// `component_id`; both are path parameters.
    pub fn mapper_insert_component_effect(&mut self, params: &ParamHolder, entity: Result<Effect, String>) -> (r: Result<(), String>)
        requires
            old(self).wf(),
            params.params().contains_key(component_param()) ==> {
                let c = old(self).comps()[params.params()[component_param()]];
                &&& old(self).comps().contains_key(params.params()[component_param()])
                &&& params.params().contains_key("index"@) ==> match crate::parse::spec_parse_usize(params.params()["index"@]) {
                    Some(n) => n <= c.component_view().effect@.len(),
                    None => true,
                }
            },
        ensures
            final(self).wf(),
            final(self).project.size == old(self).project.size,
            final(self).project.length == old(self).project.length,
            final(self).project.position == old(self).project.position,
            final(self).server == old(self).server,
            final(self).project.layers@ == old(self).project.layers@,
            match r {
                Ok(()) => {
                    let id = params.params()[component_param()];
                    let before = old(self).comps()[id];
                    let after = final(self).comps()[id];
                    &&& params.params().contains_key(component_param())
                    &&& params.params().contains_key("index"@)
                    &&& crate::parse::spec_parse_usize(params.params()["index"@]) matches Some(n)
                    &&& entity matches Ok(e) && exists|k: String| {
                        &&& #[trigger] final(self).effects() == old(self).effects().insert(k@, e)
                        &&& is_uuid_v4_text(k@)
                        &&& after.component_view().effect@ == before.component_view().effect@.insert(n as int, k)
                    }
                    &&& final(self).comps().dom() == old(self).comps().dom()
                    &&& forall|k: Seq<char>| k != id && #[trigger] old(self).comps().contains_key(k) ==> final(self).comps()[k] == old(self).comps()[k]
                    &&& same_source(before, after)
                    &&& after.component_view().attributes == before.component_view().attributes
                    &&& after.component_view().start_time == before.component_view().start_time
                    &&& after.component_view().length == before.component_view().length
                },
                Err(e) => {
                    &&& final(self).comps() == old(self).comps()
                    &&& final(self).effects() == old(self).effects()
                    &&& if !params.params().contains_key(component_param()) {
                        e@ == missing_param_text(component_param())
                    } else if !params.params().contains_key("index"@) {
                        e@ == missing_param_text("index"@)
                    } else if crate::parse::spec_parse_usize(params.params()["index"@]) is None {
                        e@ == crate::parse::usize_parse_error_text(params.params()["index"@])
                    } else {
                        entity matches Err(msg) && e == msg
                    }
                },
            },
    {
        let component_id = params.find("component_id")?;
        let index = params.find_as_usize("index")?;
        let effect = entity?;
        let ghost id = component_id@;
        let effect_id = self.effect_repo.create(effect);
        let ghost k = effect_id;
        let component = self.component_repo.get_mut(component_id);
        let inner = component.component_mut();
        inner.effect.insert(index, effect_id);
        proof {
            assert forall|q: Seq<char>| #[trigger] final(self).comps().contains_key(q) implies final(self).comps()[q].component_view().attributes.wf() by {
                assert(old(self).comps().contains_key(q));
            }
            assert(final(self).effects() == old(self).effects().insert(k@, effect));
        }
        Ok(())
    }

    /// Sets the start time and the length of the component `component_id`
    /// (a path parameter) from the updates read from the request.
    pub fn mapper_update_component(&mut self, params: &ParamHolder, updates: &Vec<(String, ClockTime)>) -> (r: Result<(), String>)
        requires
            old(self).wf(),
            updates_known(updates@),
            params.params().contains_key(component_param()) ==> old(self).comps().contains_key(
                params.params()[component_param()],
            ),
        ensures
            final(self).wf(),
            final(self).project.size == old(self).project.size,
            final(self).project.length == old(self).project.length,
            final(self).project.position == old(self).project.position,
            final(self).server == old(self).server,
            final(self).effects() == old(self).effects(),
            final(self).project.layers@ == old(self).project.layers@,
            match r {
                Ok(()) => {
                    let id = params.params()[component_param()];
                    let before = old(self).comps()[id];
                    let after = final(self).comps()[id];
                    &&& params.params().contains_key(component_param())
                    &&& final(self).comps().dom() == old(self).comps().dom()
                    &&& forall|k: Seq<char>| k != id && #[trigger] old(self).comps().contains_key(k) ==> final(self).comps()[k] == old(self).comps()[k]
                    &&& same_source(before, after)
                    &&& after.component_view().start_time == match last_update(updates@, "start_time"@) {
                        Some(t) => t,
                        None => before.component_view().start_time,
                    }
                    &&& after.component_view().length == match last_update(updates@, "length"@) {
                        Some(t) => t,
                        None => before.component_view().length,
                    }
                    &&& after.component_view().attributes == before.component_view().attributes
                    &&& after.component_view().effect == before.component_view().effect
                },
                Err(e) => {
                    &&& final(self).comps() == old(self).comps()
                    &&& !params.params().contains_key(component_param())
                    &&& e@ == missing_param_text(component_param())
                },
            },
    {
        let component_id = params.find("component_id")?;
        let ghost id = component_id@;
        let component = self.component_repo.get_mut(component_id);
        let inner = component.component_mut();
        inner.partial_update(updates);
        proof {
            assert forall|q: Seq<char>| #[trigger] final(self).comps().contains_key(q) implies final(self).comps()[q].component_view().attributes.wf() by {
                assert(old(self).comps().contains_key(q));
            }
        }
        Ok(())
    }

    /// The components on screen at `position`, in the order they are drawn
    /// onto the frame: the layers from the last to the first, each layer in
    /// its own order, keeping those whose start time is at or before the
    /// position and whose end time is at or after it.
    pub fn components_on_screen(&self, position: ClockTime) -> (r: Vec<&ComponentExt>)
        requires
            self.wf(),
            layers_resolved(self.project.layers@, self.comps()),
        ensures
            r@.map_values(|c: &ComponentExt| *c) == screen_order(self.project.layers@, self.comps(), position.nanos as int),
    {
        let layers = self.project.list_layers();
        let ghost ls = layers@;
        let ghost comps = self.comps();
        let ghost pos = position.nanos as int;
        let mut out: Vec<&ComponentExt> = Vec::new();
        let mut li: usize = layers.len();
        proof {
            assert(ls.subrange(li as int, ls.len() as int) =~= Seq::<Layer>::empty());
        }
        while li > 0
            invariant
                self.wf(),
                ls == layers@,
                ls == self.project.layers@,
                comps == self.comps(),
                pos == position.nanos as int,
                layers_resolved(ls, comps),
                li <= ls.len(),
                out@.map_values(|c: &ComponentExt| *c) == screen_order(ls.subrange(li as int, ls.len() as int), comps, pos),
            decreases li,
        {
            li = li - 1;
            let ids = layers[li].list();
            let ghost base = out@.map_values(|c: &ComponentExt| *c);
            let mut j: usize = 0;
            proof {
                assert(ids@.subrange(0, 0) =~= Seq::<String>::empty());
                assert(base + layer_shown(ids@.subrange(0, 0), comps, pos) =~= base);
            }
            while j < ids.len()
                invariant
                    self.wf(),
                    comps == self.comps(),
                    pos == position.nanos as int,
                    li < ls.len(),
                    ids@ == ls[li as int].ids(),
                    layers_resolved(ls, comps),
                    j <= ids@.len(),
                    out@.map_values(|c: &ComponentExt| *c) == base + layer_shown(ids@.subrange(0, j as int), comps, pos),
                decreases ids@.len() - j,
            {
                proof {
                    assert(ids@.subrange(0, j + 1).drop_last() =~= ids@.subrange(0, j as int));
                    assert(ids@.subrange(0, j + 1).last() == ids@[j as int]);
                    assert(ls[li as int].ids()[j as int] == ids@[j as int]);
                }
                let c = self.component_repo.get(ids[j].as_str());
                let comp = c.component();
                let end = comp.end_time();
                let ghost before = out@.map_values(|c: &ComponentExt| *c);
                if comp.start_time.nanos <= position.nanos && position.nanos <= end.nanos {
                    out.push(c);
                    assert(out@.map_values(|c: &ComponentExt| *c) =~= before.push(*c));
                } else {
                    assert(out@.map_values(|c: &ComponentExt| *c) =~= before);
                }
                j = j + 1;
            }
            proof {
                assert(ids@.subrange(0, ids@.len() as int) =~= ids@);
                let s = ls.subrange(li as int, ls.len() as int);
                assert(s.skip(1) =~= ls.subrange(li + 1, ls.len() as int));
                assert(s[0] == ls[li as int]);
            }
        }
        proof {
            assert(ls.subrange(0, ls.len() as int) =~= ls);
        }
        out
    }

    /// Loads a project read from a document: its layers, screen size and
    /// length replace the current ones (the position stays), and the keyed
    /// components and effects replace the current tables.
    pub fn from_yaml(
        &mut self,
        project: Project,
        components: Vec<Entity<ComponentExt, String>>,
        effects: Vec<Entity<Effect, String>>,
    )
        requires
            old(self).wf(),
            forall|i: int| 0 <= i < components@.len() ==> (#[trigger] components@[i]).entity.component_view().attributes.wf(),
        ensures
            final(self).wf(),
            final(self).project.layers@ == project.layers@,
            final(self).project.size == project.size,
            final(self).project.length == project.length,
            final(self).server == old(self).server,
            final(self).project.position == old(self).project.position,
            final(self).comps() == table_of(components@),
            final(self).effects() == table_of(effects@),
    {
        let ghost cs = components@;
        let Project { layers, size, length, position: _ } = project;
        self.project.layers = layers;
        self.project.size = size;
        self.project.length = length;
        self.component_repo.load_table(components);
        self.effect_repo.load_table(effects);
        proof {
            assert forall|k: Seq<char>| #[trigger] self.comps().contains_key(k) implies self.comps()[k].component_view().attributes.wf() by {
                lemma_table_of_value(cs, k);
            }
        }
    }

    /// The effect named by the path parameter `effect_id`.
    pub fn mapper_get_effect(&self, params: &ParamHolder) -> (r: Result<&Effect, String>)
        requires
            self.wf(),
            params.params().contains_key("effect_id"@) ==> self.effects().contains_key(
                params.params()["effect_id"@],
            ),
        ensures
            match r {
                Ok(e) => params.params().contains_key("effect_id"@) && *e == self.effects()[params.params()["effect_id"@]],
                Err(e) => !params.params().contains_key("effect_id"@) && e@ == missing_param_text("effect_id"@),
            },
    {
        let effect_id = params.find("effect_id")?;
        Ok(self.effect_repo.get(effect_id))
    }
}

/// The use cases of a project.
pub struct ProjectUsecase;

impl ProjectUsecase {
    /// Stores a component in the project's component repository.
    pub fn add_component(project: &mut Madder, component: ComponentExt)
        requires
            old(project).wf(),
            component.component_view().attributes.wf(),
        ensures
            final(project).wf(),
            final(project).project.size == old(project).project.size,
            final(project).project.length == old(project).project.length,
            final(project).project.position == old(project).project.position,
            final(project).server == old(project).server,
            exists|key: String| #[trigger] final(project).comps() == old(project).comps().insert(key@, component) && is_uuid_v4_text(key@),
            final(project).effects() == old(project).effects(),
            final(project).project.layers@ == old(project).project.layers@,
    {
        let key = project.component_repo.create(component);
        let ghost k = key;
        proof {
            assert(final(project).comps() == old(project).comps().insert(k@, component));
            assert forall|q: Seq<char>| #[trigger] final(project).comps().contains_key(q) implies final(project).comps()[q].component_view().attributes.wf() by {
                if q != k@ {
                    assert(old(project).comps().contains_key(q));
                }
            }
        }
    }
}

} // verus!
