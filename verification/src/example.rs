//! An example module: it answers requests for the path `/hello` with a
//! greeting and hands every other request on.

use crate::cache::{KeyModel, ModuleCache};
use crate::chain::{LoadError, Module, ModuleHandlers, ModuleLoader};
use crate::config::{
    boolean_property_verdict, validate_boolean_property, ConfigurationError, ServerConfiguration,
    UsedProperties,
};
use crate::message::{
    uri_path, HandlerError, Request, RequestModel, Response, ResponseData, ResponseDataModel,
    ResponseModel, SocketData, DEFAULT_STATUS,
};
use std::sync::Arc;
use vstd::prelude::*;

verus! {

/// The bytes of the greeting, `Hello World!` in ASCII.
pub open spec fn greeting() -> Seq<u8> {
    seq![72u8, 101u8, 108u8, 108u8, 111u8, 32u8, 87u8, 111u8, 114u8, 108u8, 100u8, 33u8]
}

/// What the example handler returns for a request whose URI has the path
/// `path`: the greeting for `/hello`, and the request itself otherwise.
pub open spec fn example_response(
    path: Option<Seq<char>>,
    request: RequestModel,
) -> ResponseDataModel {
    if path == Some("/hello"@) {
        ResponseDataModel::responding(
            ResponseModel { status: DEFAULT_STATUS, headers: Seq::empty(), body: greeting() },
        )
    } else {
        ResponseDataModel::passing(request)
    }
}

/// The example module. It holds no state.
pub struct ExampleModule;

/// The per-request handlers of the example module.
pub struct ExampleModuleHandlers;

impl ExampleModuleHandlers {
    /// Answers a request whose URI has the path `path`, where `None` stands
    /// for a URI that cannot be parsed.
    pub fn respond_to_path(path: Option<String>, request: Request) -> (r: ResponseData)
        ensures
            r@ == example_response(
                match path {
                    Some(p) => Some(p@),
                    None => None,
                },
                request@,
            ),
    {
        let is_hello = match path {
            Some(p) => p == "/hello".to_owned(),
            None => false,
        };
        if is_hello {
            let body: Vec<u8> = vec![
                72u8, 101u8, 108u8, 108u8, 111u8, 32u8, 87u8, 111u8, 114u8, 108u8, 100u8, 33u8,
            ];
            assert(body@ =~= greeting());
            ResponseData::respond(Response::with_body(body))
        } else {
            ResponseData::pass_through(request)
        }
    }
}

impl ModuleHandlers for ExampleModuleHandlers {
    open spec fn request_result(
        &self,
        request: RequestModel,
        config: ServerConfiguration,
        socket_data: SocketData,
    ) -> Result<ResponseDataModel, Seq<char>> {
        Ok(example_response(uri_path(request.uri), request))
    }

    open spec fn response_result(
        &self,
        response: ResponseModel,
        config: ServerConfiguration,
        socket_data: SocketData,
    ) -> Result<ResponseModel, Seq<char>> {
        Ok(response)
    }

    /// Answers `/hello` with the greeting and hands every other request on,
    /// unchanged.
    fn request_handler(
        &mut self,
        request: Request,
        config: &ServerConfiguration,
        socket_data: &SocketData,
    ) -> (r: Result<ResponseData, HandlerError>) {
        let path = request.path();
        Ok(ExampleModuleHandlers::respond_to_path(path, request))
    }

    /// Leaves every response as it is.
    fn response_modifying_handler(
        &mut self,
        response: Response,
        config: &ServerConfiguration,
        socket_data: &SocketData,
    ) -> (r: Result<Response, HandlerError>) {
        Ok(response)
    }
}

impl Module for ExampleModule {
    type Handlers = ExampleModuleHandlers;

    fn get_module_handlers(&self) -> ExampleModuleHandlers {
        ExampleModuleHandlers
    }
}

/// The loader of the example module: it validates the module's property and
/// keeps one shared module per distinct configuration key.
pub struct ExampleModuleLoader {
    cache: ModuleCache<ExampleModule>,
}

impl ExampleModuleLoader {
    /// The modules loaded so far, by key.
    pub closed spec fn loaded(&self) -> Map<KeyModel, Arc<ExampleModule>> {
        self.cache@
    }

    /// The key that `config` projects to. The example module depends on no
    /// property, so every configuration has the same key.
    pub closed spec fn key_of(&self, config: ServerConfiguration) -> KeyModel {
        self.cache.key_of(config)
    }

    /// A loader with an empty cache.
    pub fn new() -> (r: ExampleModuleLoader)
        ensures
            r.wf(),
            r.loaded() == Map::<KeyModel, Arc<ExampleModule>>::empty(),
    {
        ExampleModuleLoader { cache: ModuleCache::new(Vec::new()) }
    }

    /// How many modules the loader holds: one once any configuration was
    /// loaded, none before.
    pub fn loaded_count(&self) -> (r: usize)
        requires
            self.wf(),
        ensures
            forall|c: ServerConfiguration|
                r == (if self.loaded().contains_key(#[trigger] self.key_of(c)) {
                    1usize
                } else {
                    0usize
                }),
    {
        proof {
            self.lemma_single_key();
            assert forall|c: ServerConfiguration|
                self.cache.entries@.len() == (if self.loaded().contains_key(
                    #[trigger] self.key_of(c),
                ) {
                    1int
                } else {
                    0int
                }) by {
                if self.cache.entries@.len() == 1 {
                    assert(self.cache.entries@[0].key@ =~= self.cache.key_of(c));
                    self.cache.lemma_position(0);
                }
            }
        }
        self.cache.len()
    }

    /// The example module depends on no property: every configuration
    /// projects to the same key, so every configuration shares one module.
    pub proof fn lemma_every_configuration_shares_a_key(
        &self,
        first: ServerConfiguration,
        second: ServerConfiguration,
    )
        requires
            self.wf(),
        ensures
            self.key_of(first) == self.key_of(second),
    {
        self.lemma_single_key();
    }

    /// All configurations project to the same key, so the cache never holds
    /// more than one module.
    proof fn lemma_single_key(&self)
        requires
            self.cache.wf(),
            self.cache.properties@.len() == 0,
        ensures
            self.cache.entries@.len() <= 1,
            forall|a: ServerConfiguration, b: ServerConfiguration|
                self.cache.key_of(a) == self.cache.key_of(b),
    {
        assert forall|a: ServerConfiguration, b: ServerConfiguration|
            self.cache.key_of(a) == self.cache.key_of(b) by {
            assert(self.cache.key_of(a) =~= self.cache.key_of(b));
        }
        if self.cache.entries@.len() >= 2 {
            assert(self.cache.entries@[0].key@ =~= self.cache.entries@[1].key@);
        }
    }
}

impl Default for ExampleModuleLoader {
    fn default() -> (r: ExampleModuleLoader)
        ensures
            r.wf(),
            r.loaded() == Map::<KeyModel, Arc<ExampleModule>>::empty(),
    {
        ExampleModuleLoader::new()
    }
}

impl ModuleLoader for ExampleModuleLoader {
    type Loaded = ExampleModule;

    closed spec fn wf(&self) -> bool {
        self.cache.wf() && self.cache.properties@.len() == 0
    }

    /// Returns the module cached for the configuration's key, or builds and
    /// caches one. Building the example module cannot fail.
    fn load_module<C>(
        &mut self,
        config: &ServerConfiguration,
        global_config: Option<&ServerConfiguration>,
        secondary_execution_context: &C,
    ) -> (r: Result<Arc<ExampleModule>, LoadError>)
        ensures
            r is Ok,
            forall|c: ServerConfiguration| final(self).key_of(c) == old(self).key_of(c),
            final(self).loaded().contains_key(old(self).key_of(*config)),
            final(self).loaded()[old(self).key_of(*config)] == r->Ok_0,
            old(self).loaded().contains_key(old(self).key_of(*config)) ==> final(self).loaded()
                == old(self).loaded(),
            !old(self).loaded().contains_key(old(self).key_of(*config)) ==> final(self).loaded()
                == old(self).loaded().insert(old(self).key_of(*config), r->Ok_0),
    {
        let build = |c: &ServerConfiguration| -> (built: Result<Arc<ExampleModule>, LoadError>)
            ensures
                built is Ok,
            { Ok(Arc::new(ExampleModule)) };
        self.cache.get_or_init(config, build)
    }

    /// The example module owns the property `example_handler`.
    fn get_requirements(&self) -> (r: Vec<&'static str>)
        ensures
            r@.len() == 1,
            r@[0]@ == "example_handler"@,
    {
        vec!["example_handler"]
    }

    /// Each entry of `example_handler` must hold exactly one value, a
    /// boolean. An absent property is valid and is not marked.
    fn validate_configuration(
        &self,
        config: &ServerConfiguration,
        used_properties: &mut UsedProperties,
    ) -> (r: Result<(), ConfigurationError>)
        ensures
            final(used_properties)@ == (if config.entries_of("example_handler"@) is Some {
                old(used_properties)@.insert("example_handler"@)
            } else {
                old(used_properties)@
            }),
            match boolean_property_verdict(config.entries_of("example_handler"@)) {
                None => r is Ok,
                Some(v) => r matches Err(e) && e.violation == v && e.property@
                    == "example_handler"@,
            },
    {
        validate_boolean_property(config, "example_handler", used_properties)
    }
}

} // verus!
