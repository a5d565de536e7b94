use vstd::prelude::*;
use route_recognizer::{Params, Router};
use crate::parse::{parse_u64, parse_usize, spec_parse_u64, spec_parse_usize, u64_parse_error_text, usize_parse_error_text};
use crate::text::str_equal;

verus! {

#[verifier::external_type_specification]
#[verifier::external_body]
#[verifier::reject_recursive_types(T)]
pub struct ExRouter<T>(Router<T>);

#[verifier::external_type_specification]
#[verifier::external_body]
pub struct ExParams(Params);

/// Whether a path is one that route_recognizer matches without panicking.
/// It computes `c - 1` on the code of each character it reads, so a NUL
/// makes it panic. It counts the bounds of captured text in characters
/// but cuts the text by bytes; every capture but one that runs to the
/// end of the path ends at a `/`, so the bounds are right as long as each
/// character before the last `/` is ASCII.
pub open spec fn routable(s: Seq<char>) -> bool {
    &&& forall|i: int| 0 <= i < s.len() ==> #[trigger] s[i] != '\0'
    &&& forall|i: int, j: int| 0 <= i < j < s.len() && #[trigger] s[j] == '/' ==> (#[trigger] s[i] as int) < 128
}

/// Whether `path` is one the router matches without panicking.
pub fn is_routable(path: &str) -> (r: bool)
    ensures
        r == routable(path@),
{
    let n = path.unicode_len();
    let mut i: usize = n;
    let mut seen_slash = false;
    while i > 0
        invariant
            n == path@.len(),
            i <= n,
            forall|k: int| i <= k < n ==> #[trigger] path@[k] != '\0',
            seen_slash <==> exists|k: int| i <= k < n && #[trigger] path@[k] == '/',
            forall|a: int, b: int| i <= a < b < n && #[trigger] path@[b] == '/' ==> (#[trigger] path@[a] as int) < 128,
        decreases i,
    {
        let c = path.get_char(i - 1);
        if c == '\0' {
            assert(path@[i - 1] == '\0');
            return false;
        }
        if seen_slash && (c as u32) >= 128 {
            let ghost k = choose|k: int| i <= k < n && #[trigger] path@[k] == '/';
            assert(path@[k] == '/' && (path@[i - 1] as int) >= 128);
            return false;
        }
        if c == '/' {
            seen_slash = true;
        }
        i = i - 1;
    }
    true
}

/// The parameters captured by a match, by name.
pub uninterp spec fn params_map(p: Params) -> Map<Seq<char>, Seq<char>>;

/// What route_recognizer's matching gives for a path against a router
/// built by adding the given routes (pattern and handler name) in order,
/// a later route of the same shape replacing an earlier one: the handler
/// name and the captured parameters of the route it picks, or its error
/// message.
pub uninterp spec fn recognized(
    routes: Seq<(Seq<char>, Seq<char>)>,
    path: Seq<char>,
) -> Result<(Seq<char>, Map<Seq<char>, Seq<char>>), Seq<char>>;

/// A router together with the routes it was built from, in the order they
/// were added. Only the functions below build or change one.
pub struct RouteTable {
    router: Router<&'static str>,
    routes: Ghost<Seq<(Seq<char>, Seq<char>)>>,
}

impl RouteTable {
    /// The routes added, in order, each as its pattern and handler name.
    pub closed spec fn routes(&self) -> Seq<(Seq<char>, Seq<char>)> {
        self.routes@
    }
}

/// route_recognizer's `Router::new`: a router with no routes.
#[verifier::external_body]
fn route_table_new() -> (r: RouteTable)
    ensures
        r.routes() == Seq::<(Seq<char>, Seq<char>)>::empty(),
{
    RouteTable { router: Router::new(), routes: Ghost(Seq::empty()) }
}

/// route_recognizer's `Router::add`: the route is added after the others.
/// A NUL in the route makes it panic, so the route holds none.
#[verifier::external_body]
fn route_table_add(t: &mut RouteTable, route: &str, dest: &'static str)
    requires
        route@.len() > 0,
        route@[0] == '/',
        forall|i: int| 0 <= i < route@.len() ==> (#[trigger] route@[i]) != '\0',
    ensures
        final(t).routes() == old(t).routes().push((route@, dest@)),
{
    t.router.add(route, dest);
    t.routes = Ghost(t.routes@.push((route@, dest@)));
}

/// route_recognizer's `Router::recognize`, with the match taken apart
/// into its handler and its parameters. The result is named, not stated;
/// its source shows that a handler it gives is one that was added. The
/// path is one it matches without panicking (see `routable`).
#[verifier::external_body]
fn route_table_recognize(t: &RouteTable, path: &str) -> (res: Result<(&'static str, Params), String>)
    requires
        routable(path@),
    ensures
        match res {
            Ok((h, p)) => {
                &&& recognized(t.routes(), path@) == Ok::<(Seq<char>, Map<Seq<char>, Seq<char>>), Seq<char>>((h@, params_map(p)))
                &&& exists|i: int| 0 <= i < t.routes().len() && (#[trigger] t.routes()[i]).1 == h@
            },
            Err(e) => recognized(t.routes(), path@) == Err::<(Seq<char>, Map<Seq<char>, Seq<char>>), Seq<char>>(e@),
        },
{
    match t.router.recognize(path) {
        Ok(m) => Ok((*m.handler, m.params)),
        Err(e) => Err(e),
    }
}

/// route_recognizer's `Params::find`: the value captured under `key`.
#[verifier::external_body]
fn params_find<'a>(p: &'a Params, key: &str) -> (r: Option<&'a str>)
    ensures
        match r {
            Some(v) => params_map(*p).contains_key(key@) && params_map(*p)[key@] == v@,
            None => !params_map(*p).contains_key(key@),
        },
{
    p.find(key)
}

/// The kind of request: the four operations of the API.
#[derive(Clone, Copy, Debug, PartialEq, Eq, Hash, Structural)]
pub enum Method {
    Create,
    Get,
    Update,
    Delete,
}

/// The parameters captured from a request path.
pub struct ParamHolder(Params);

/// The message given when a path has no parameter `param`.
pub open spec fn missing_param_text(param: Seq<char>) -> Seq<char> {
    "No such parameter: "@ + param
}

impl ParamHolder {
    /// The parameters, by name.
    pub closed spec fn params(&self) -> Map<Seq<char>, Seq<char>> {
        params_map(self.0)
    }

    /// The value of the parameter `param`.
    pub fn find(&self, param: &str) -> (r: Result<&str, String>)
        ensures
            match r {
                Ok(v) => self.params().contains_key(param@) && v@ == self.params()[param@],
                Err(e) => !self.params().contains_key(param@) && e@ == missing_param_text(param@),
            },
    {
        match params_find(&self.0, param) {
            Some(v) => Ok(v),
            None => {
                let mut msg = "No such parameter: ".to_owned();
                msg.append(param);
                Err(msg)
            },
        }
    }

    /// The parameter `param` read as a `usize`.
    pub fn find_as_usize(&self, param: &str) -> (r: Result<usize, String>)
        ensures
            match r {
                Ok(n) => self.params().contains_key(param@) && spec_parse_usize(self.params()[param@]) == Some(n),
                Err(e) => if self.params().contains_key(param@) {
                    spec_parse_usize(self.params()[param@]) is None
                        && e@ == usize_parse_error_text(self.params()[param@])
                } else {
                    e@ == missing_param_text(param@)
                },
            },
    {
        let v = self.find(param)?;
        parse_usize(v)
    }

    /// The parameter `param` read as a `u64`.
    pub fn find_as_u64(&self, param: &str) -> (r: Result<u64, String>)
        ensures
            match r {
                Ok(n) => self.params().contains_key(param@) && spec_parse_u64(self.params()[param@]) == Some(n),
                Err(e) => if self.params().contains_key(param@) {
                    spec_parse_u64(self.params()[param@]) is None
                        && e@ == u64_parse_error_text(self.params()[param@])
                } else {
                    e@ == missing_param_text(param@)
                },
            },
    {
        let v = self.find(param)?;
        parse_u64(v)
    }
}

/// The handler that a request is routed to.
#[derive(Clone, Copy, Debug, PartialEq, Eq, Structural)]
pub enum Handler {
    ListComponent,
    CreateComponent,
    GetComponent,
    DeleteComponent,
    UpdateComponent,
    GetComponentAttribute,
    UpdateComponentAttribute,
    ListComponentEffect,
    CreateComponentEffect,
    GetComponentEffect,
    InsertComponentEffect,
    ListEffect,
    GetEffect,
    CreateEffectIntermed,
    GetEffectValue,
    GetProjectYaml,
    UpdateProjectYaml,
    GetScreen,
}

/// The name under which a handler is registered with a router.
pub open spec fn handler_name(h: Handler) -> Seq<char> {
    match h {
        Handler::ListComponent => "mapper_list_component"@,
        Handler::CreateComponent => "mapper_create_component"@,
        Handler::GetComponent => "mapper_get_component"@,
        Handler::DeleteComponent => "mapper_delete_component"@,
        Handler::UpdateComponent => "mapper_update_component"@,
        Handler::GetComponentAttribute => "mapper_get_component_attribute"@,
        Handler::UpdateComponentAttribute => "mapper_update_component_attribute"@,
        Handler::ListComponentEffect => "mapper_list_component_effect"@,
        Handler::CreateComponentEffect => "mapper_create_component_effect"@,
        Handler::GetComponentEffect => "mapper_get_component_effect"@,
        Handler::InsertComponentEffect => "mapper_insert_component_effect"@,
        Handler::ListEffect => "mapper_list_effect"@,
        Handler::GetEffect => "mapper_get_effect"@,
        Handler::CreateEffectIntermed => "mapper_create_effet_intermed"@,
        Handler::GetEffectValue => "mapper_get_effect_value"@,
        Handler::GetProjectYaml => "mapper_get_project_yaml"@,
        Handler::UpdateProjectYaml => "mapper_update_project_yaml"@,
        Handler::GetScreen => "mapper_get_screen"@,
    }
}

impl Handler {
    /// The name under which this handler is registered.
    pub fn name(&self) -> (r: &'static str)
        ensures
            r@ == handler_name(*self),
    {
        match self {
            Handler::ListComponent => "mapper_list_component",
            Handler::CreateComponent => "mapper_create_component",
            Handler::GetComponent => "mapper_get_component",
            Handler::DeleteComponent => "mapper_delete_component",
            Handler::UpdateComponent => "mapper_update_component",
            Handler::GetComponentAttribute => "mapper_get_component_attribute",
            Handler::UpdateComponentAttribute => "mapper_update_component_attribute",
            Handler::ListComponentEffect => "mapper_list_component_effect",
            Handler::CreateComponentEffect => "mapper_create_component_effect",
            Handler::GetComponentEffect => "mapper_get_component_effect",
            Handler::InsertComponentEffect => "mapper_insert_component_effect",
            Handler::ListEffect => "mapper_list_effect",
            Handler::GetEffect => "mapper_get_effect",
            Handler::CreateEffectIntermed => "mapper_create_effet_intermed",
            Handler::GetEffectValue => "mapper_get_effect_value",
            Handler::GetProjectYaml => "mapper_get_project_yaml",
            Handler::UpdateProjectYaml => "mapper_update_project_yaml",
            Handler::GetScreen => "mapper_get_screen",
        }
    }
}

/// The path patterns of each method's routes.
pub open spec fn route_patterns(m: Method) -> Seq<Seq<char>> {
    match m {
        Method::Create => seq!["/component"@, "/component/:component_id/effect"@, "/component/:component_id/effect/:index"@, "/effect/:effect_id/intermed"@],
        Method::Get => seq!["/component"@, "/component/:component_id"@, "/component/:component_id/attribute/:key"@, "/component/:component_id/effect"@, "/component/:component_id/effect/:index"@, "/effect"@, "/effect/:effect_id"@, "/effect/:effect_id/value/:time"@, "/project/yaml"@, "/screen/:time"@],
        Method::Update => seq!["/component/:component_id"@, "/component/:component_id/attribute/:key"@, "/project/yaml"@],
        Method::Delete => seq!["/component/:component_id"@],
    }
}

/// The handlers of each method's routes, in the order of `route_patterns`.
pub open spec fn route_handlers(m: Method) -> Seq<Handler> {
    match m {
        Method::Create => seq![Handler::CreateComponent, Handler::CreateComponentEffect, Handler::InsertComponentEffect, Handler::CreateEffectIntermed],
        Method::Get => seq![Handler::ListComponent, Handler::GetComponent, Handler::GetComponentAttribute, Handler::ListComponentEffect, Handler::GetComponentEffect, Handler::ListEffect, Handler::GetEffect, Handler::GetEffectValue, Handler::GetProjectYaml, Handler::GetScreen],
        Method::Update => seq![Handler::UpdateComponent, Handler::UpdateComponentAttribute, Handler::UpdateProjectYaml],
        Method::Delete => seq![Handler::DeleteComponent],
    }
}

/// The routes of each method: the pattern of a path and the name of
/// the handler it leads to.
pub open spec fn route_table(m: Method) -> Seq<(Seq<char>, Seq<char>)> {
    Seq::new(
        route_patterns(m).len(),
        |i: int| (route_patterns(m)[i], handler_name(route_handlers(m)[i])),
    )
}

/// The handlers of a method's routes, in the order of `route_handlers`.
fn handlers_of(m: Method) -> (r: Vec<Handler>)
    ensures
        r@ == route_handlers(m),
{
    let mut v: Vec<Handler> = Vec::new();
    match m {
        Method::Create => {
            v.push(Handler::CreateComponent);
            v.push(Handler::CreateComponentEffect);
            v.push(Handler::InsertComponentEffect);
            v.push(Handler::CreateEffectIntermed);
        },
        Method::Get => {
            v.push(Handler::ListComponent);
            v.push(Handler::GetComponent);
            v.push(Handler::GetComponentAttribute);
            v.push(Handler::ListComponentEffect);
            v.push(Handler::GetComponentEffect);
            v.push(Handler::ListEffect);
            v.push(Handler::GetEffect);
            v.push(Handler::GetEffectValue);
            v.push(Handler::GetProjectYaml);
            v.push(Handler::GetScreen);
        },
        Method::Update => {
            v.push(Handler::UpdateComponent);
            v.push(Handler::UpdateComponentAttribute);
            v.push(Handler::UpdateProjectYaml);
        },
        Method::Delete => {
            v.push(Handler::DeleteComponent);
        },
    }
    proof {
        assert(v@ =~= route_handlers(m));
    }
    v
}

/// Whether no character of `s` from position `i` on is NUL.
spec fn nul_free_from(s: Seq<char>, i: int) -> bool
    decreases s.len() - i,
{
    if i < 0 || i >= s.len() {
        true
    } else {
        s[i] != '\0' && nul_free_from(s, i + 1)
    }
}

proof fn lemma_nul_free_from(s: Seq<char>, i: int)
    requires
        0 <= i,
        nul_free_from(s, i),
    ensures
        forall|j: int| i <= j < s.len() ==> s[j] != '\0',
    decreases s.len() - i,
{
    if i < s.len() {
        lemma_nul_free_from(s, i + 1);
    }
}

/// Adds a route given as text written out in full, checking it character
/// by character in the proof.
fn add_route(t: &mut RouteTable, route: &str, dest: &'static str)
    requires
        route@.len() > 0,
        route@[0] == '/',
        nul_free_from(route@, 0),
    ensures
        final(t).routes() == old(t).routes().push((route@, dest@)),
{
    proof {
        lemma_nul_free_from(route@, 0);
    }
    route_table_add(t, route, dest);
}

/// The request router of the API server: one router per method.
pub struct ApiServer {
    create: RouteTable,
    get: RouteTable,
    update: RouteTable,
    delete: RouteTable,
}

impl ApiServer {
    /// The router of a method.
    pub closed spec fn router_of(&self, m: Method) -> RouteTable {
        match m {
            Method::Create => self.create,
            Method::Get => self.get,
            Method::Update => self.update,
            Method::Delete => self.delete,
        }
    }

    /// Whether each method's router holds exactly the routes of `route_table`.
    pub open spec fn wf(&self) -> bool {
        forall|m: Method| (#[trigger] self.router_of(m)).routes() == route_table(m)
    }

    /// A server whose routers hold exactly the routes of `route_table`.
    pub fn new() -> (r: ApiServer)
        ensures
            r.wf(),
    {
        let mut create = route_table_new();
        proof {
            reveal_strlit("/component");
            reveal_with_fuel(nul_free_from, 41);
        }
        add_route(&mut create, "/component", "mapper_create_component");
        proof {
            reveal_strlit("/component/:component_id/effect");
            reveal_with_fuel(nul_free_from, 41);
        }
        add_route(&mut create, "/component/:component_id/effect", "mapper_create_component_effect");
        proof {
            reveal_strlit("/component/:component_id/effect/:index");
            reveal_with_fuel(nul_free_from, 41);
        }
        add_route(&mut create, "/component/:component_id/effect/:index", "mapper_insert_component_effect");
        proof {
            reveal_strlit("/effect/:effect_id/intermed");
            reveal_with_fuel(nul_free_from, 41);
        }
        add_route(&mut create, "/effect/:effect_id/intermed", "mapper_create_effet_intermed");
        let mut get = route_table_new();
        proof {
            reveal_strlit("/component");
            reveal_with_fuel(nul_free_from, 41);
        }
        add_route(&mut get, "/component", "mapper_list_component");
        proof {
            reveal_strlit("/component/:component_id");
            reveal_with_fuel(nul_free_from, 41);
        }
        add_route(&mut get, "/component/:component_id", "mapper_get_component");
        proof {
            reveal_strlit("/component/:component_id/attribute/:key");
            reveal_with_fuel(nul_free_from, 41);
        }
        add_route(&mut get, "/component/:component_id/attribute/:key", "mapper_get_component_attribute");
        proof {
            reveal_strlit("/component/:component_id/effect");
            reveal_with_fuel(nul_free_from, 41);
        }
        add_route(&mut get, "/component/:component_id/effect", "mapper_list_component_effect");
        proof {
            reveal_strlit("/component/:component_id/effect/:index");
            reveal_with_fuel(nul_free_from, 41);
        }
        add_route(&mut get, "/component/:component_id/effect/:index", "mapper_get_component_effect");
        proof {
            reveal_strlit("/effect");
            reveal_with_fuel(nul_free_from, 41);
        }
        add_route(&mut get, "/effect", "mapper_list_effect");
        proof {
            reveal_strlit("/effect/:effect_id");
            reveal_with_fuel(nul_free_from, 41);
        }
        add_route(&mut get, "/effect/:effect_id", "mapper_get_effect");
        proof {
            reveal_strlit("/effect/:effect_id/value/:time");
            reveal_with_fuel(nul_free_from, 41);
        }
        add_route(&mut get, "/effect/:effect_id/value/:time", "mapper_get_effect_value");
        proof {
            reveal_strlit("/project/yaml");
            reveal_with_fuel(nul_free_from, 41);
        }
        add_route(&mut get, "/project/yaml", "mapper_get_project_yaml");
        proof {
            reveal_strlit("/screen/:time");
            reveal_with_fuel(nul_free_from, 41);
        }
        add_route(&mut get, "/screen/:time", "mapper_get_screen");
        let mut update = route_table_new();
        proof {
            reveal_strlit("/component/:component_id");
            reveal_with_fuel(nul_free_from, 41);
        }
        add_route(&mut update, "/component/:component_id", "mapper_update_component");
        proof {
            reveal_strlit("/component/:component_id/attribute/:key");
            reveal_with_fuel(nul_free_from, 41);
        }
        add_route(&mut update, "/component/:component_id/attribute/:key", "mapper_update_component_attribute");
        proof {
            reveal_strlit("/project/yaml");
            reveal_with_fuel(nul_free_from, 41);
        }
        add_route(&mut update, "/project/yaml", "mapper_update_project_yaml");
        let mut delete = route_table_new();
        proof {
            reveal_strlit("/component/:component_id");
            reveal_with_fuel(nul_free_from, 41);
        }
        add_route(&mut delete, "/component/:component_id", "mapper_delete_component");
        let r = ApiServer { create, get, update, delete };
        assert forall|m: Method| (#[trigger] r.router_of(m)).routes() == route_table(m) by {
            match m {
                Method::Create => assert(r.create.routes() =~= route_table(Method::Create)),
                Method::Get => assert(r.get.routes() =~= route_table(Method::Get)),
                Method::Update => assert(r.update.routes() =~= route_table(Method::Update)),
                Method::Delete => assert(r.delete.routes() =~= route_table(Method::Delete)),
            }
        }
        r
    }

    /// Routes a request: the handler that its method and path lead to and
    /// the parameters captured from the path, or the router's error. The
    /// path is one the router matches without panicking (see `routable`).
    pub fn route(&self, method: Method, path: &str) -> (r: Result<(Handler, ParamHolder), String>)
        requires
            self.wf(),
            routable(path@),
        ensures
            match r {
                Ok((h, p)) => {
                    &&& recognized(route_table(method), path@) == Ok::<(Seq<char>, Map<Seq<char>, Seq<char>>), Seq<char>>((handler_name(h), p.params()))
                    &&& route_handlers(method).contains(h)
                },
                Err(e) => recognized(route_table(method), path@) == Err::<(Seq<char>, Map<Seq<char>, Seq<char>>), Seq<char>>(e@),
            },
    {
        let router = match method {
            Method::Create => &self.create,
            Method::Get => &self.get,
            Method::Update => &self.update,
            Method::Delete => &self.delete,
        };
        proof {
            assert(*router == self.router_of(method));
            assert(self.router_of(method).routes() == route_table(method));
        }
        let (name, params) = route_table_recognize(router, path)?;
        let hs = handlers_of(method);
        let mut j: usize = 0;
        while j < hs.len()
            invariant
                hs@ == route_handlers(method),
                router.routes() == route_table(method),
                recognized(route_table(method), path@) == Ok::<(Seq<char>, Map<Seq<char>, Seq<char>>), Seq<char>>((name@, params_map(params))),
                exists|i: int| 0 <= i < router.routes().len() && (#[trigger] router.routes()[i]).1 == name@,
                j <= hs@.len(),
                forall|q: int| 0 <= q < j ==> handler_name(#[trigger] hs@[q]) != name@,
            decreases hs@.len() - j,
        {
            if str_equal(hs[j].name(), name) {
                proof {
                    assert(hs@.contains(hs@[j as int]));
                }
                return Ok((hs[j], ParamHolder(params)));
            }
            j = j + 1;
        }
        proof {
            let i = choose|i: int| 0 <= i < router.routes().len() && (#[trigger] router.routes()[i]).1 == name@;
            assert(route_table(method)[i].1 == name@);
            assert(handler_name(route_handlers(method)[i]) == name@);
            assert(handler_name(hs@[i]) != name@);
        }
        Err(name.to_owned())
    }
}

/// The routes a well-formed server holds, each path pattern with the
/// handler it leads to, method by method, in the order they are added.
pub proof fn law_server_routes(s: ApiServer)
    requires
        s.wf(),
    ensures
        s.router_of(Method::Create).routes() == seq![
            ("/component"@, handler_name(Handler::CreateComponent)),
            ("/component/:component_id/effect"@, handler_name(Handler::CreateComponentEffect)),
            ("/component/:component_id/effect/:index"@, handler_name(Handler::InsertComponentEffect)),
            ("/effect/:effect_id/intermed"@, handler_name(Handler::CreateEffectIntermed)),
        ],
        s.router_of(Method::Get).routes() == seq![
            ("/component"@, handler_name(Handler::ListComponent)),
            ("/component/:component_id"@, handler_name(Handler::GetComponent)),
            ("/component/:component_id/attribute/:key"@, handler_name(Handler::GetComponentAttribute)),
            ("/component/:component_id/effect"@, handler_name(Handler::ListComponentEffect)),
            ("/component/:component_id/effect/:index"@, handler_name(Handler::GetComponentEffect)),
            ("/effect"@, handler_name(Handler::ListEffect)),
            ("/effect/:effect_id"@, handler_name(Handler::GetEffect)),
            ("/effect/:effect_id/value/:time"@, handler_name(Handler::GetEffectValue)),
            ("/project/yaml"@, handler_name(Handler::GetProjectYaml)),
            ("/screen/:time"@, handler_name(Handler::GetScreen)),
        ],
        s.router_of(Method::Update).routes() == seq![
            ("/component/:component_id"@, handler_name(Handler::UpdateComponent)),
            ("/component/:component_id/attribute/:key"@, handler_name(Handler::UpdateComponentAttribute)),
            ("/project/yaml"@, handler_name(Handler::UpdateProjectYaml)),
        ],
        s.router_of(Method::Delete).routes() == seq![
            ("/component/:component_id"@, handler_name(Handler::DeleteComponent)),
        ],
{
    assert(s.router_of(Method::Create).routes() == route_table(Method::Create));
    assert(route_table(Method::Create) =~= seq![
        ("/component"@, handler_name(Handler::CreateComponent)),
        ("/component/:component_id/effect"@, handler_name(Handler::CreateComponentEffect)),
        ("/component/:component_id/effect/:index"@, handler_name(Handler::InsertComponentEffect)),
        ("/effect/:effect_id/intermed"@, handler_name(Handler::CreateEffectIntermed)),
    ]);
    assert(s.router_of(Method::Get).routes() == route_table(Method::Get));
    assert(route_table(Method::Get) =~= seq![
        ("/component"@, handler_name(Handler::ListComponent)),
        ("/component/:component_id"@, handler_name(Handler::GetComponent)),
        ("/component/:component_id/attribute/:key"@, handler_name(Handler::GetComponentAttribute)),
        ("/component/:component_id/effect"@, handler_name(Handler::ListComponentEffect)),
        ("/component/:component_id/effect/:index"@, handler_name(Handler::GetComponentEffect)),
        ("/effect"@, handler_name(Handler::ListEffect)),
        ("/effect/:effect_id"@, handler_name(Handler::GetEffect)),
        ("/effect/:effect_id/value/:time"@, handler_name(Handler::GetEffectValue)),
        ("/project/yaml"@, handler_name(Handler::GetProjectYaml)),
        ("/screen/:time"@, handler_name(Handler::GetScreen)),
    ]);
    assert(s.router_of(Method::Update).routes() == route_table(Method::Update));
    assert(route_table(Method::Update) =~= seq![
        ("/component/:component_id"@, handler_name(Handler::UpdateComponent)),
        ("/component/:component_id/attribute/:key"@, handler_name(Handler::UpdateComponentAttribute)),
        ("/project/yaml"@, handler_name(Handler::UpdateProjectYaml)),
    ]);
    assert(s.router_of(Method::Delete).routes() == route_table(Method::Delete));
    assert(route_table(Method::Delete) =~= seq![
        ("/component/:component_id"@, handler_name(Handler::DeleteComponent)),
    ]);
}

/// No two handlers share a name, so the name a route leads to fixes its
/// handler.
pub proof fn law_handler_names_distinct(h1: Handler, h2: Handler)
    ensures
        handler_name(h1) == handler_name(h2) ==> h1 == h2,
{
    reveal_strlit("mapper_list_component");
    reveal_strlit("mapper_create_component");
    reveal_strlit("mapper_get_component");
    reveal_strlit("mapper_delete_component");
    reveal_strlit("mapper_update_component");
    reveal_strlit("mapper_get_component_attribute");
    reveal_strlit("mapper_update_component_attribute");
    reveal_strlit("mapper_list_component_effect");
    reveal_strlit("mapper_create_component_effect");
    reveal_strlit("mapper_get_component_effect");
    reveal_strlit("mapper_insert_component_effect");
    reveal_strlit("mapper_list_effect");
    reveal_strlit("mapper_get_effect");
    reveal_strlit("mapper_create_effet_intermed");
    reveal_strlit("mapper_get_effect_value");
    reveal_strlit("mapper_get_project_yaml");
    reveal_strlit("mapper_update_project_yaml");
    reveal_strlit("mapper_get_screen");
    assert("mapper_list_component"@.len() == 21);
    assert("mapper_create_component"@.len() == 23);
    assert("mapper_create_component"@[7] == 'c');
    assert("mapper_get_component"@.len() == 20);
    assert("mapper_delete_component"@.len() == 23);
    assert("mapper_delete_component"@[7] == 'd');
    assert("mapper_update_component"@.len() == 23);
    assert("mapper_update_component"@[7] == 'u');
    assert("mapper_get_component_attribute"@.len() == 30);
    assert("mapper_get_component_attribute"@[7] == 'g');
    assert("mapper_update_component_attribute"@.len() == 33);
    assert("mapper_list_component_effect"@.len() == 28);
    assert("mapper_list_component_effect"@[7] == 'l');
    assert("mapper_create_component_effect"@.len() == 30);
    assert("mapper_create_component_effect"@[7] == 'c');
    assert("mapper_get_component_effect"@.len() == 27);
    assert("mapper_insert_component_effect"@.len() == 30);
    assert("mapper_insert_component_effect"@[7] == 'i');
    assert("mapper_list_effect"@.len() == 18);
    assert("mapper_get_effect"@.len() == 17);
    assert("mapper_get_effect"@[11] == 'e');
    assert("mapper_create_effet_intermed"@.len() == 28);
    assert("mapper_create_effet_intermed"@[7] == 'c');
    assert("mapper_get_effect_value"@.len() == 23);
    assert("mapper_get_effect_value"@[7] == 'g');
    assert("mapper_get_effect_value"@[11] == 'e');
    assert("mapper_get_project_yaml"@.len() == 23);
    assert("mapper_get_project_yaml"@[7] == 'g');
    assert("mapper_get_project_yaml"@[11] == 'p');
    assert("mapper_update_project_yaml"@.len() == 26);
    assert("mapper_get_screen"@.len() == 17);
    assert("mapper_get_screen"@[11] == 's');
    match h1 {
        Handler::ListComponent => {},
        Handler::CreateComponent => {},
        Handler::GetComponent => {},
        Handler::DeleteComponent => {},
        Handler::UpdateComponent => {},
        Handler::GetComponentAttribute => {},
        Handler::UpdateComponentAttribute => {},
        Handler::ListComponentEffect => {},
        Handler::CreateComponentEffect => {},
        Handler::GetComponentEffect => {},
        Handler::InsertComponentEffect => {},
        Handler::ListEffect => {},
        Handler::GetEffect => {},
        Handler::CreateEffectIntermed => {},
        Handler::GetEffectValue => {},
        Handler::GetProjectYaml => {},
        Handler::UpdateProjectYaml => {},
        Handler::GetScreen => {},
    }
}

} // verus!
