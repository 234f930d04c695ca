//! The handler chain: what a module offers, and the executor that drives the
//! handlers of one request through an initial pass and a response-modifying
//! pass.

use crate::config::{ConfigurationError, ServerConfiguration, UsedProperties};
use crate::message::{
    headers_model, lemma_headers_model_concat, request_result_model, response_result_model,
    HandlerError, HandlerOutcome, HeadersModel, OutcomeModel, Request, RequestModel, Response,
    ResponseData, ResponseDataModel, ResponseModel, SocketData,
};
use std::sync::Arc;
use vstd::prelude::*;

verus! {

/// The per-request state of one module. A handler is created for one request
/// and never shared.
///
/// The two spec functions say what a call returns, as mathematical values,
/// for the state a handler is in; an implementation is held to them by the
/// contracts of the two methods.
pub trait ModuleHandlers {
    /// What `request_handler` returns. An implementation states it; until it
    /// does, nothing is known of it.
    open spec fn request_result(
        &self,
        request: RequestModel,
        config: ServerConfiguration,
        socket_data: SocketData,
    ) -> Result<ResponseDataModel, Seq<char>> {
        arbitrary()
    }

    /// What `response_modifying_handler` returns. An implementation states
    /// it; until it does, nothing is known of it.
    open spec fn response_result(
        &self,
        response: ResponseModel,
        config: ServerConfiguration,
        socket_data: SocketData,
    ) -> Result<ResponseModel, Seq<char>> {
        arbitrary()
    }

    /// Offers the request to the module: it answers it or hands it on.
    fn request_handler(
        &mut self,
        request: Request,
        config: &ServerConfiguration,
        socket_data: &SocketData,
    ) -> (r: Result<ResponseData, HandlerError>)
        ensures
            request_result_model(r) == old(self).request_result(request@, *config, *socket_data),
    ;

    /// Offers an existing response to the module: it returns it as it is or
    /// rewritten.
    fn response_modifying_handler(
        &mut self,
        response: Response,
        config: &ServerConfiguration,
        socket_data: &SocketData,
    ) -> (r: Result<Response, HandlerError>)
        ensures
            response_result_model(r) == old(self).response_result(response@, *config, *socket_data),
    ;
}

/// A module: shared and immutable, it makes a fresh handler for each request.
pub trait Module {
    type Handlers: ModuleHandlers;

    fn get_module_handlers(&self) -> Self::Handlers;
}

/// Why a module could not be loaded.
pub enum LoadError {
    /// The configuration has the wrong shape.
    Configuration(ConfigurationError),
    /// The module could not be built; nothing was cached.
    Construction(String),
}

/// The factory of one type of module.
pub trait ModuleLoader {
    type Loaded: Module;

    /// The loader's own invariant: what its constructors establish and
    /// `load_module` keeps. A loader without one keeps this default.
    open spec fn wf(&self) -> bool {
        true
    }

    /// The shared module for `config`. `secondary_execution_context` is handed
    /// on to modules that need a place to run background work.
    fn load_module<C>(
        &mut self,
        config: &ServerConfiguration,
        global_config: Option<&ServerConfiguration>,
        secondary_execution_context: &C,
    ) -> (r: Result<Arc<Self::Loaded>, LoadError>)
        requires
            old(self).wf(),
        ensures
            final(self).wf(),
    ;

    /// The names of the properties that this loader owns.
    fn get_requirements(&self) -> Vec<&'static str>;

    /// Checks the shape of the properties that this loader owns and marks
    /// each one it finds in `used_properties`.
    fn validate_configuration(
        &self,
        config: &ServerConfiguration,
        used_properties: &mut UsedProperties,
    ) -> Result<(), ConfigurationError>;
}

/// Overrides that handlers asked for; they are applied to the response
/// whichever module produces it.
pub struct Overrides {
    pub status: Option<u16>,
    pub headers: Vec<(String, String)>,
}

/// What a set of overrides stands for.
pub struct OverridesModel {
    pub status: Option<u16>,
    pub headers: HeadersModel,
}

impl View for Overrides {
    type V = OverridesModel;

    open spec fn view(&self) -> OverridesModel {
        OverridesModel { status: self.status, headers: headers_model(self.headers@) }
    }
}

impl OverridesModel {
    /// No override.
    pub open spec fn none() -> OverridesModel {
        OverridesModel { status: None, headers: Seq::empty() }
    }

    /// The overrides after one more handler: a later status replaces an
    /// earlier one, later headers follow earlier ones.
    pub open spec fn merged(
        self,
        status: Option<u16>,
        headers: Option<HeadersModel>,
    ) -> OverridesModel {
        OverridesModel {
            status: if status is Some {
                status
            } else {
                self.status
            },
            headers: match headers {
                Some(more) => self.headers + more,
                None => self.headers,
            },
        }
    }

    /// The response with the overrides applied: the status replaced where one
    /// was asked for, the extra headers after the response's own.
    pub open spec fn applied(self, response: ResponseModel) -> ResponseModel {
        ResponseModel {
            status: match self.status {
                Some(status) => status,
                None => response.status,
            },
            headers: response.headers + self.headers,
            body: response.body,
        }
    }
}

impl Overrides {
    /// No override.
    pub fn new() -> (r: Overrides)
        ensures
            r@ == OverridesModel::none(),
    {
        let r = Overrides { status: None, headers: Vec::new() };
        assert(r@.headers =~= Seq::empty());
        r
    }

    /// Adds what one more handler asked for.
    pub fn merge(self, status: Option<u16>, headers: Option<Vec<(String, String)>>) -> (r:
        Overrides)
        ensures
            r@ == self@.merged(
                status,
                match headers {
                    Some(more) => Some(headers_model(more@)),
                    None => None,
                },
            ),
    {
        let mut merged = self;
        if status.is_some() {
            merged.status = status;
        }
        match headers {
            Some(more) => {
                let mut more = more;
                proof {
                    lemma_headers_model_concat(merged.headers@, more@);
                }
                merged.headers.append(&mut more);
            },
            None => {},
        }
        merged
    }

    /// Applies the overrides to a response.
    pub fn apply(self, response: Response) -> (r: Response)
        ensures
            r@ == self@.applied(response@),
    {
        let mut out = response;
        let mut extra = self.headers;
        match self.status {
            Some(status) => {
                out.status = status;
            },
            None => {},
        }
        proof {
            lemma_headers_model_concat(out.headers@, extra@);
        }
        out.headers.append(&mut extra);
        out
    }
}

/// Where the processing of one request stands.
pub enum ChainState {
    /// No module has answered yet; `next` is the module to offer the request
    /// to. With `next` equal to the number of modules, none answered and the
    /// host's default behaviour applies.
    Pending { next: usize, request: Request, socket_data: SocketData, overrides: Overrides },
    /// Module `by` answered; no later module's request handler is invoked.
    Handled { by: usize, response: Response, socket_data: SocketData },
    /// The first `count` modules have seen the response in the
    /// response-modifying pass.
    ResponseModified { count: usize, response: Response },
    /// All `modified_by` modules have seen the response.
    Complete { modified_by: usize, response: Response },
    /// A handler failed; no further handler is invoked.
    Errored { error: HandlerError },
}

/// What a state stands for.
pub enum ChainModel {
    Pending { next: int, request: RequestModel, socket_data: SocketData, overrides: OverridesModel },
    Handled { by: int, response: ResponseModel, socket_data: SocketData },
    ResponseModified { count: int, response: ResponseModel },
    Complete { modified_by: int, response: ResponseModel },
    Errored { error: Seq<char> },
}

impl View for ChainState {
    type V = ChainModel;

    open spec fn view(&self) -> ChainModel {
        match *self {
            ChainState::Pending { next, request, socket_data, overrides } => ChainModel::Pending {
                next: next as int,
                request: request@,
                socket_data,
                overrides: overrides@,
            },
            ChainState::Handled { by, response, socket_data } => ChainModel::Handled {
                by: by as int,
                response: response@,
                socket_data,
            },
            ChainState::ResponseModified { count, response } => ChainModel::ResponseModified {
                count: count as int,
                response: response@,
            },
            ChainState::Complete { modified_by, response } => ChainModel::Complete {
                modified_by: modified_by as int,
                response: response@,
            },
            ChainState::Errored { error } => ChainModel::Errored { error: error@ },
        }
    }
}

/// The state after module `next` returned `result` for the pending request.
pub open spec fn request_step(
    next: int,
    overrides: OverridesModel,
    socket_data: SocketData,
    result: Result<ResponseDataModel, Seq<char>>,
) -> ChainModel {
    match result {
        Err(error) => ChainModel::Errored { error },
        Ok(data) => {
            let merged = overrides.merged(data.response_status, data.response_headers);
            let socket = socket_data.readdressed(data.new_remote_address);
            match data.outcome {
                OutcomeModel::Respond(response) => ChainModel::Handled {
                    by: next,
                    response: merged.applied(response),
                    socket_data: socket,
                },
                OutcomeModel::PassThrough(request) => ChainModel::Pending {
                    next: next + 1,
                    request,
                    socket_data: socket,
                    overrides: merged,
                },
            }
        },
    }
}

/// The state after the module at `count` returned `result` in the
/// response-modifying pass over `modules` modules.
pub open spec fn modifier_step(
    count: int,
    modules: int,
    result: Result<ResponseModel, Seq<char>>,
) -> ChainModel {
    match result {
        Err(error) => ChainModel::Errored { error },
        Ok(response) => if count + 1 >= modules {
            ChainModel::Complete { modified_by: modules, response }
        } else {
            ChainModel::ResponseModified { count: count + 1, response }
        },
    }
}

impl ChainState {
    /// The state in which a request arrives.
    pub fn start(request: Request, socket_data: SocketData) -> (r: ChainState)
        ensures
            r@ == (ChainModel::Pending {
                next: 0,
                request: request@,
                socket_data,
                overrides: OverridesModel::none(),
            }),
    {
        ChainState::Pending { next: 0, request, socket_data, overrides: Overrides::new() }
    }

    /// The transition of the initial pass: module `next` was offered the
    /// pending request and returned `result`.
    pub fn after_request_handler(
        next: usize,
        overrides: Overrides,
        socket_data: SocketData,
        result: Result<ResponseData, HandlerError>,
    ) -> (r: ChainState)
        requires
            next < usize::MAX,
        ensures
            r@ == request_step(next as int, overrides@, socket_data, request_result_model(result)),
    {
        match result {
            Err(error) => ChainState::Errored { error },
            Ok(data) => {
                let merged = overrides.merge(data.response_status, data.response_headers);
                let socket = socket_data.with_remote_address(data.new_remote_address);
                match data.outcome {
                    HandlerOutcome::Respond(response) => ChainState::Handled {
                        by: next,
                        response: merged.apply(response),
                        socket_data: socket,
                    },
                    HandlerOutcome::PassThrough(request) => ChainState::Pending {
                        next: next + 1,
                        request,
                        socket_data: socket,
                        overrides: merged,
                    },
                }
            },
        }
    }

    /// The transition of the response-modifying pass: the module at `count`
    /// was offered the response and returned `result`.
    pub fn after_response_modifier(
        count: usize,
        modules: usize,
        result: Result<Response, HandlerError>,
    ) -> (r: ChainState)
        requires
            count < modules,
        ensures
            r@ == modifier_step(count as int, modules as int, response_result_model(result)),
    {
        match result {
            Err(error) => ChainState::Errored { error },
            Ok(response) => if count + 1 >= modules {
                ChainState::Complete { modified_by: modules, response }
            } else {
                ChainState::ResponseModified { count: count + 1, response }
            },
        }
    }
}

/// The state in which the initial pass over `handlers` ends, when it offers
/// `request` to the modules from `from` on, in their order.
pub open spec fn initial_pass<H: ModuleHandlers>(
    handlers: Seq<H>,
    from: int,
    request: RequestModel,
    config: ServerConfiguration,
    socket_data: SocketData,
    overrides: OverridesModel,
) -> ChainModel
    decreases handlers.len() - from,
{
    if from < 0 || from >= handlers.len() {
        ChainModel::Pending { next: from, request, socket_data, overrides }
    } else {
        match request_step(
            from,
            overrides,
            socket_data,
            handlers[from].request_result(request, config, socket_data),
        ) {
            ChainModel::Pending { next, request: passed, socket_data: socket, overrides: merged } =>
                initial_pass(handlers, from + 1, passed, config, socket, merged),
            other => other,
        }
    }
}

/// The result of the response-modifying pass over `handlers`, when it offers
/// `response` to the modules from `from` on, in their order.
pub open spec fn modifying_pass<H: ModuleHandlers>(
    handlers: Seq<H>,
    from: int,
    response: ResponseModel,
    config: ServerConfiguration,
    socket_data: SocketData,
) -> Result<ResponseModel, Seq<char>>
    decreases handlers.len() - from,
{
    if from < 0 || from >= handlers.len() {
        Ok(response)
    } else {
        match handlers[from].response_result(response, config, socket_data) {
            Err(error) => Err(error),
            Ok(modified) => modifying_pass(handlers, from + 1, modified, config, socket_data),
        }
    }
}

/// Runs the initial pass: offers the request to each module in order until
/// one answers or fails. A rewritten remote address is in force for every
/// module after the one that rewrote it.
pub fn run_initial_pass<H: ModuleHandlers>(
    handlers: &mut Vec<H>,
    request: Request,
    config: &ServerConfiguration,
    socket_data: SocketData,
) -> (r: ChainState)
    ensures
        final(handlers)@.len() == old(handlers)@.len(),
        r@ == initial_pass(
            old(handlers)@,
            0,
            request@,
            *config,
            socket_data,
            OverridesModel::none(),
        ),
{
    let modules = handlers.len();
    let mut current = request;
    let mut socket = socket_data;
    let mut overrides = Overrides::new();
    let mut i: usize = 0;
    while i < modules
        invariant
            i <= modules,
            handlers@.len() == modules,
            old(handlers)@.len() == modules,
            forall|j: int| i <= j < modules ==> handlers@[j] == old(handlers)@[j],
            initial_pass(
                old(handlers)@,
                0,
                request@,
                *config,
                socket_data,
                OverridesModel::none(),
            ) == initial_pass(old(handlers)@, i as int, current@, *config, socket, overrides@),
        decreases modules - i,
    {
        let result = handlers[i].request_handler(current, config, &socket);
        match ChainState::after_request_handler(i, overrides, socket, result) {
            ChainState::Pending { next, request: passed, socket_data: rebound, overrides: merged } => {
                current = passed;
                socket = rebound;
                overrides = merged;
                i = next;
            },
            other => {
                return other;
            },
        }
    }
    ChainState::Pending { next: modules, request: current, socket_data: socket, overrides }
}

/// The state in which the response-modifying pass over `modules` modules ends
/// with `result`.
pub open spec fn completion(result: Result<ResponseModel, Seq<char>>, modules: int) -> ChainModel {
    match result {
        Ok(response) => ChainModel::Complete { modified_by: modules, response },
        Err(error) => ChainModel::Errored { error },
    }
}

/// Runs the response-modifying pass: offers the response to every module, in
/// order, each one exactly once, whichever module produced the response.
pub fn run_response_modifying_pass<H: ModuleHandlers>(
    handlers: &mut Vec<H>,
    response: Response,
    config: &ServerConfiguration,
    socket_data: &SocketData,
) -> (r: ChainState)
    ensures
        final(handlers)@.len() == old(handlers)@.len(),
        r@ == completion(
            modifying_pass(old(handlers)@, 0, response@, *config, *socket_data),
            old(handlers)@.len() as int,
        ),
{
    let modules = handlers.len();
    let mut current = response;
    let mut i: usize = 0;
    while i < modules
        invariant
            i <= modules,
            i == modules ==> modules == 0,
            handlers@.len() == modules,
            old(handlers)@.len() == modules,
            forall|j: int| i <= j < modules ==> handlers@[j] == old(handlers)@[j],
            modifying_pass(old(handlers)@, 0, response@, *config, *socket_data) == modifying_pass(
                old(handlers)@,
                i as int,
                current@,
                *config,
                *socket_data,
            ),
        decreases modules - i,
    {
        let result = handlers[i].response_modifying_handler(current, config, socket_data);
        proof {
            if result is Ok {
                let modified = result->Ok_0@;
                if i + 1 >= modules {
                    assert(modifying_pass(
                        old(handlers)@,
                        i as int + 1,
                        modified,
                        *config,
                        *socket_data,
                    ) == Ok::<ResponseModel, Seq<char>>(modified));
                }
            }
        }
        match ChainState::after_response_modifier(i, modules, result) {
            ChainState::ResponseModified { count, response: modified } => {
                current = modified;
                i = count;
            },
            other => {
                return other;
            },
        }
    }
    ChainState::Complete { modified_by: modules, response: current }
}

/// Drives one request through its handlers: the initial pass and, where a
/// module answered, the response-modifying pass over all modules, with the
/// handlers in the state in which the initial pass left them. A request that
/// no module answered stays pending, for the host to answer; a failure in the
/// initial pass ends the processing, and no module sees a response.
pub fn run_request<H: ModuleHandlers>(
    handlers: &mut Vec<H>,
    request: Request,
    config: &ServerConfiguration,
    socket_data: SocketData,
) -> (r: ChainState)
    ensures
        final(handlers)@.len() == old(handlers)@.len(),
        ({
            let first = initial_pass(
                old(handlers)@,
                0,
                request@,
                *config,
                socket_data,
                OverridesModel::none(),
            );
            if first is Handled {
                exists|between: Seq<H>|
                    between.len() == old(handlers)@.len() && r@ == completion(
                        #[trigger] modifying_pass(
                            between,
                            0,
                            first->Handled_response,
                            *config,
                            first->Handled_socket_data,
                        ),
                        between.len() as int,
                    )
            } else {
                r@ == first
            }
        }),
{
    let ghost first = initial_pass(
        old(handlers)@,
        0,
        request@,
        *config,
        socket_data,
        OverridesModel::none(),
    );
    let state = run_initial_pass(handlers, request, config, socket_data);
    assert(state@ == first);
    match state {
        ChainState::Handled { by, response, socket_data: socket } => {
            let ghost between = handlers@;
            assert(first is Handled);
            assert(first->Handled_response == response@);
            assert(first->Handled_socket_data == socket);
            let r = run_response_modifying_pass(handlers, response, config, &socket);
            assert(between.len() == old(handlers)@.len() && r@ == completion(
                modifying_pass(
                    between,
                    0,
                    first->Handled_response,
                    *config,
                    first->Handled_socket_data,
                ),
                between.len() as int,
            ));
            r
        },
        other => {
            assert(!(first is Handled));
            assert(other@ == first);
            other
        },
    }
}

/// The response-modifying pass leaves no module out and keeps their order:
/// with one more module at the end, the pass is the pass over the others,
/// followed by that module on what they made of the response.
pub proof fn lemma_modifying_pass_reaches_every_module<H: ModuleHandlers>(
    handlers: Seq<H>,
    last: H,
    from: int,
    response: ResponseModel,
    config: ServerConfiguration,
    socket_data: SocketData,
)
    requires
        0 <= from <= handlers.len(),
    ensures
        modifying_pass(handlers.push(last), from, response, config, socket_data) == (
        match modifying_pass(handlers, from, response, config, socket_data) {
            Ok(modified) => last.response_result(modified, config, socket_data),
            Err(error) => Err(error),
        }),
    decreases handlers.len() - from,
{
    let longer = handlers.push(last);
    if from == handlers.len() {
        assert(longer[from] == last);
        match last.response_result(response, config, socket_data) {
            Ok(modified) => {
                assert(modifying_pass(longer, from + 1, modified, config, socket_data) == Ok::<
                    ResponseModel,
                    Seq<char>,
                >(modified));
            },
            Err(_) => {},
        }
    } else {
        assert(longer[from] == handlers[from]);
        match handlers[from].response_result(response, config, socket_data) {
            Ok(modified) => {
                lemma_modifying_pass_reaches_every_module(
                    handlers,
                    last,
                    from + 1,
                    modified,
                    config,
                    socket_data,
                );
            },
            Err(_) => {},
        }
    }
}

/// Fallthrough: a module that hands the request on leaves the decision to the
/// modules after it, which see the request it handed on, the remote address
/// it rewrote and the overrides so far.
pub proof fn lemma_pass_through_falls_to_next<H: ModuleHandlers>(
    handlers: Seq<H>,
    from: int,
    request: RequestModel,
    config: ServerConfiguration,
    socket_data: SocketData,
    overrides: OverridesModel,
)
    requires
        0 <= from < handlers.len(),
        handlers[from].request_result(request, config, socket_data) matches Ok(data)
            && data.outcome is PassThrough,
    ensures
        ({
            let data = handlers[from].request_result(request, config, socket_data)->Ok_0;
            initial_pass(handlers, from, request, config, socket_data, overrides) == initial_pass(
                handlers,
                from + 1,
                data.request()->Some_0,
                config,
                socket_data.readdressed(data.new_remote_address),
                overrides.merged(data.response_status, data.response_headers),
            )
        }),
{
}

/// Short circuit: once a module answers or fails, the modules after it have
/// no part in the outcome of the initial pass.
pub proof fn lemma_first_answer_ends_initial_pass<H: ModuleHandlers>(
    handlers: Seq<H>,
    from: int,
    request: RequestModel,
    config: ServerConfiguration,
    socket_data: SocketData,
    overrides: OverridesModel,
)
    requires
        0 <= from < handlers.len(),
        !(handlers[from].request_result(request, config, socket_data) matches Ok(data)
            && data.outcome is PassThrough),
    ensures
        initial_pass(handlers, from, request, config, socket_data, overrides) == request_step(
            from,
            overrides,
            socket_data,
            handlers[from].request_result(request, config, socket_data),
        ),
{
}

} // verus!
