use multimap::MultiMap;
use roa::app::{respond, App, HttpService, Model, Served};
use roa::chain::Chain;
use roa::context::{Context, Symbol};
use roa::cursor::{Cursor, Signal, Step};
use roa::error::{Error, ErrorKind, BAD_REQUEST, INTERNAL_SERVER_ERROR, NOT_FOUND};
use roa::method::Method;
use roa::request::Request;
use roa::response::Response;
use roa::router::param::{bind, RouterParam};
use roa::router::{RouteEndpoint, Router};
use slab::Slab;
use std::cell::RefCell;
use std::rc::Rc;

type Outcome = Result<(), Error>;
type Next<'a, S> = &'a mut dyn FnMut(&mut Context<S>) -> Outcome;
type Layer<S> = Box<dyn Fn(&mut Context<S>, Next<S>) -> Outcome>;

fn layer<S>(f: impl Fn(&mut Context<S>, Next<S>) -> Outcome + 'static) -> Layer<S> {
    Box::new(f)
}

fn endpoint<S>(f: impl Fn(&mut Context<S>) -> Outcome + 'static) -> Layer<S> {
    Box::new(move |ctx, _next| f(ctx))
}

fn drive<S>(
    layers: &[&Layer<S>],
    cursor: &mut Cursor,
    step: Step<Outcome>,
    ctx: &mut Context<S>,
    terminal: Next<S>,
) -> Outcome {
    let returned = match step {
        Step::Enter(depth) => (layers[depth])(ctx, &mut |ctx| {
            let step = cursor.step(Signal::Next).expect("a layer calls next once");
            drive(layers, cursor, step, ctx, terminal)
        }),
        Step::Terminal => terminal(ctx),
        _ => unreachable!(),
    };
    match cursor.step(Signal::Return(returned)) {
        Some(Step::Resume(_, outcome)) | Some(Step::Finish(outcome)) => outcome,
        _ => unreachable!(),
    }
}

fn run<S>(layers: &[&Layer<S>], ctx: &mut Context<S>, terminal: Next<S>) -> Outcome {
    let mut cursor = Cursor::new(layers.len());
    let step = cursor.step(Signal::Begin).expect("the run begins once");
    let outcome = drive(layers, &mut cursor, step, ctx, terminal);
    assert!(cursor.finished());
    outcome
}

fn run_chain<S>(chain: &Chain<Layer<S>>, ctx: &mut Context<S>, terminal: Next<S>) -> Outcome {
    let layers: Vec<&Layer<S>> = (0..chain.len()).map(|i| chain.layer(i).unwrap()).collect();
    run(&layers, ctx, terminal)
}

fn routes<S: 'static>(router: Router<Layer<S>>, prefix: &str) -> Layer<S> {
    let endpoint: RouteEndpoint<Layer<S>> = match router.routes(prefix) {
        Ok(endpoint) => endpoint,
        Err(_) => panic!("the routes do not conflict"),
    };
    Box::new(move |ctx, _next| {
        let found = endpoint.handle(&ctx.request.method, ctx.uri())?;
        bind(ctx, &found.params);
        let ids = found.chain.into_layers();
        let layers: Vec<&Layer<S>> = ids.iter().map(|id| endpoint.handler(*id).unwrap()).collect();
        run(&layers, ctx, &mut |_ctx| Ok(()))
    })
}

fn serve<M: Model>(app: &App<M, Layer<M::State>>, request: Request) -> Served {
    let service = HttpService::new(app.middleware(), "127.0.0.1:8080".to_string(), app.model());
    let mut ctx = service.context(request);
    let outcome = run_chain(service.middleware, &mut ctx, &mut |_ctx| Ok(()));
    respond(ctx.response, outcome)
}

fn request(method: Method, path: &str, query: &str, body: &str) -> Request {
    let mut request = Request::new();
    request.method = method;
    request.path = path.to_string();
    request.query = query.to_string();
    request.body = body.as_bytes().to_vec();
    request
}

fn get(path: &str) -> Request {
    request(Method::get(), path, "", "")
}

fn text(response: &Response) -> String {
    String::from_utf8(response.body.clone()).unwrap()
}

fn log_of(log: &Rc<RefCell<Vec<String>>>) -> Vec<String> {
    log.borrow().clone()
}

fn noting(log: &Rc<RefCell<Vec<String>>>, name: &'static str) -> Layer<()> {
    let log = log.clone();
    layer(move |ctx, next| {
        log.borrow_mut().push(format!("{} before", name));
        let outcome = next(ctx);
        log.borrow_mut().push(format!("{} after", name));
        outcome
    })
}

#[test]
fn gate_simple() {
    let mut app: App<(), Layer<()>> = App::new(());
    app.gate_fn(layer(|ctx, next| {
        next(ctx)?;
        Ok(())
    }));
    let served = serve(&app, get("/"));
    assert_eq!(served.response.status, 200);
    assert!(served.thrown.is_none());
}

#[test]
fn body_read() {
    let mut app: App<(), Layer<()>> = App::new(());
    app.gate_fn(layer(|ctx, _next| {
        let data = String::from_utf8(ctx.request.body.clone()).unwrap();
        assert_eq!("Hello, World!", data);
        Ok(())
    }));
    let served = serve(&app, request(Method::post(), "/", "", "Hello, World!"));
    assert_eq!(served.response.status, 200);
}

#[test]
fn layers_cascade_in_and_out() {
    let log = Rc::new(RefCell::new(Vec::new()));
    let mut app: App<(), Layer<()>> = App::new(());
    app.gate(noting(&log, "a")).gate(noting(&log, "b")).gate(noting(&log, "c"));
    let served = serve(&app, get("/"));
    assert_eq!(served.response.status, 200);
    assert_eq!(
        log_of(&log),
        vec!["a before", "b before", "c before", "c after", "b after", "a after"]
    );
}

#[test]
fn terminal_runs_innermost() {
    let log = Rc::new(RefCell::new(Vec::new()));
    let chain = Chain::of(vec![noting(&log, "a"), noting(&log, "b")]);
    let mut ctx = Context::fake(Request::new());
    let seen = log.clone();
    let outcome = run_chain(&chain, &mut ctx, &mut |_ctx| {
        seen.borrow_mut().push("terminal".to_string());
        Ok(())
    });
    assert!(outcome.is_ok());
    assert_eq!(log_of(&log), vec!["a before", "b before", "terminal", "b after", "a after"]);
}

#[test]
fn empty_chain_is_its_next() {
    let chain: Chain<Layer<()>> = roa::chain::join_all(Vec::new());
    assert_eq!(chain.len(), 0);
    let mut ctx = Context::fake(Request::new());
    let outcome = run_chain(&chain, &mut ctx, &mut |ctx| {
        ctx.response.status = 204;
        Err(Error::new(418, "teapot".to_string(), true))
    });
    assert_eq!(ctx.response.status, 204);
    assert_eq!(outcome, Err(Error::new(418, "teapot".to_string(), true)));
    let app: App<(), Layer<()>> = App::new(());
    assert_eq!(app.middleware().len(), 0);
    assert_eq!(serve(&app, get("/")).response, Response::new());
}

#[test]
fn layer_that_does_not_call_next_stops_the_descent() {
    let log = Rc::new(RefCell::new(Vec::new()));
    let stop_log = log.clone();
    let chain = Chain::of(vec![
        noting(&log, "a"),
        layer(move |_ctx, _next| {
            stop_log.borrow_mut().push("stop".to_string());
            Ok(())
        }),
        noting(&log, "c"),
    ]);
    let mut ctx = Context::fake(Request::new());
    let outcome = run_chain(&chain, &mut ctx, &mut |_ctx| panic!("the terminal is not reached"));
    assert!(outcome.is_ok());
    assert_eq!(log_of(&log), vec!["a before", "stop", "a after"]);
}

#[test]
fn error_passes_outward_unchanged_and_can_be_caught() {
    let log = Rc::new(RefCell::new(Vec::new()));
    let seen = log.clone();
    let chain: Chain<Layer<()>> = Chain::of(vec![
        layer(move |ctx, next| {
            if let Err(err) = next(ctx) {
                seen.borrow_mut().push(format!("caught {} {}", err.status_code, err.message));
                if err.status_code != 418 {
                    return Err(err);
                }
            }
            Ok(())
        }),
        layer(|ctx, next| {
            next(ctx)?;
            unreachable!()
        }),
        endpoint(|_ctx| Err(Error::new(418, "I'm a teapot!".to_string(), true))),
        noting(&log, "never"),
    ]);
    let mut ctx = Context::fake(Request::new());
    let outcome = run_chain(&chain, &mut ctx, &mut |_ctx| Ok(()));
    assert!(outcome.is_ok());
    assert_eq!(log_of(&log), vec!["caught 418 I'm a teapot!"]);
}

#[test]
fn layer_may_replace_an_error() {
    let chain: Chain<Layer<()>> = Chain::of(vec![
        layer(|ctx, next| match next(ctx) {
            Err(_) => Err(Error::new(503, "later".to_string(), false)),
            Ok(()) => Ok(()),
        }),
        endpoint(|_ctx| Err(Error::new(404, "gone".to_string(), true))),
    ]);
    let mut ctx = Context::fake(Request::new());
    let outcome = run_chain(&chain, &mut ctx, &mut |_ctx| Ok(()));
    assert_eq!(outcome, Err(Error::new(503, "later".to_string(), false)));
}

#[test]
fn join_keeps_the_order_of_its_parts() {
    let log = Rc::new(RefCell::new(Vec::new()));
    let outer = Chain::of(vec![noting(&log, "a"), noting(&log, "b")]);
    let inner = roa::chain::join(Chain::unit(noting(&log, "c")), Chain::empty());
    let chain = roa::chain::join_all(vec![Chain::empty(), outer, Chain::empty(), inner]);
    assert_eq!(chain.len(), 3);
    let mut ctx = Context::fake(Request::new());
    assert!(run_chain(&chain, &mut ctx, &mut |_ctx| Ok(())).is_ok());
    assert_eq!(
        log_of(&log),
        vec!["a before", "b before", "c before", "c after", "b after", "a after"]
    );
}

#[test]
fn client_error_is_answered_and_ends() {
    let mut app: App<(), Layer<()>> = App::new(());
    app.end(endpoint(|ctx| {
        ctx.response.write_str("partial ");
        Err(Error::new(BAD_REQUEST, "bad input".to_string(), true))
    }));
    let served = serve(&app, get("/"));
    assert_eq!(served.response.status, 400);
    assert_eq!(text(&served.response), "partial bad input");
    assert!(served.thrown.is_none());
}

#[test]
fn hidden_message_is_not_written() {
    let mut app: App<(), Layer<()>> = App::new(());
    app.end(endpoint(|_ctx| Err(Error::new(403, "secret".to_string(), false))));
    let served = serve(&app, get("/"));
    assert_eq!(served.response.status, 403);
    assert_eq!(text(&served.response), "");
    assert!(served.thrown.is_none());
}

#[test]
fn server_error_is_answered_and_thrown() {
    let mut app: App<(), Layer<()>> = App::new(());
    app.end(endpoint(|_ctx| Err(Error::new(INTERNAL_SERVER_ERROR, "boom".to_string(), false))));
    let served = serve(&app, get("/"));
    assert_eq!(served.response.status, 500);
    assert_eq!(text(&served.response), "");
    let thrown = served.thrown.unwrap();
    assert_eq!(thrown.kind, ErrorKind::Server);
    assert_eq!(thrown.message, "boom");
    assert!(thrown.need_throw());
}

#[test]
fn error_kind_follows_the_status() {
    assert_eq!(Error::new(499, String::new(), true).kind, ErrorKind::Client);
    assert_eq!(Error::new(500, String::new(), true).kind, ErrorKind::Server);
    assert_eq!(Error::new(404, String::new(), true).kind, ErrorKind::Client);
    assert!(!Error::new(404, String::new(), true).need_throw());
    assert!(Error::new(503, String::new(), true).need_throw());
}

#[test]
fn cursor_refuses_what_cannot_come() {
    let mut cursor = Cursor::new(1);
    assert_eq!(cursor.step(Signal::<u8>::Next), None);
    assert_eq!(cursor.step(Signal::Return(1u8)), None);
    assert_eq!(cursor.step(Signal::<u8>::Begin), Some(Step::Enter(0)));
    assert_eq!(cursor.step(Signal::<u8>::Begin), None);
    assert_eq!(cursor.step(Signal::<u8>::Next), Some(Step::Terminal));
    assert_eq!(cursor.step(Signal::<u8>::Next), None);
    assert_eq!(cursor.step(Signal::Return(7u8)), Some(Step::Resume(0, 7)));
    assert_eq!(cursor.step(Signal::<u8>::Next), None);
    assert_eq!(cursor.step(Signal::Return(9u8)), Some(Step::Finish(9)));
    assert!(cursor.finished());
    assert_eq!(cursor.step(Signal::Return(9u8)), None);
    assert_eq!(cursor.step(Signal::<u8>::Begin), None);
}

#[test]
fn cursor_steps_of_three_layers() {
    let mut cursor = Cursor::new(3);
    let signals = vec![
        Signal::Begin,
        Signal::Next,
        Signal::Next,
        Signal::Next,
        Signal::Return("t"),
        Signal::Return("c"),
        Signal::Return("b"),
        Signal::Return("a"),
    ];
    let steps: Vec<Step<&str>> = signals.into_iter().map(|s| cursor.step(s).unwrap()).collect();
    assert_eq!(
        steps,
        vec![
            Step::Enter(0),
            Step::Enter(1),
            Step::Enter(2),
            Step::Terminal,
            Step::Resume(2, "t"),
            Step::Resume(1, "c"),
            Step::Resume(0, "b"),
            Step::Finish("a"),
        ]
    );
}

struct TestSymbol;

impl TestSymbol {
    fn symbol() -> Symbol {
        Symbol::new(7)
    }
}

#[test]
fn gate() {
    let mut router = Router::<Layer<()>>::new();
    router
        .gate_fn(layer(|ctx, next| {
            ctx.store(TestSymbol::symbol(), "id", "0".to_string());
            next(ctx)
        }))
        .get_fn(
            "/",
            endpoint(|ctx| {
                let id: u64 = ctx.load(TestSymbol::symbol(), "id").unwrap().parse().unwrap();
                assert_eq!(0, id);
                Ok(())
            }),
        );
    let mut app: App<(), Layer<()>> = App::new(());
    app.gate(routes(router, "/route"));
    let served = serve(&app, get("/route"));
    assert_eq!(200, served.response.status);
}

#[test]
fn route() {
    let mut router = Router::<Layer<()>>::new();
    let mut user_router = Router::<Layer<()>>::new();
    router.gate_fn(layer(|ctx, next| {
        ctx.store(TestSymbol::symbol(), "id", "0".to_string());
        next(ctx)
    }));
    user_router.get_fn(
        "/",
        endpoint(|ctx| {
            let id: u64 = ctx.load(TestSymbol::symbol(), "id").unwrap().parse().unwrap();
            assert_eq!(0, id);
            Ok(())
        }),
    );
    router.mount("/user", user_router);
    let mut app: App<(), Layer<()>> = App::new(());
    app.gate(routes(router, "/route"));
    let served = serve(&app, get("/route/user"));
    assert_eq!(200, served.response.status);
}

#[test]
fn router_never_calls_the_next_of_its_chain() {
    let log = Rc::new(RefCell::new(Vec::new()));
    let mut router = Router::<Layer<()>>::new();
    router.get("/x", layer(|ctx, next| next(ctx)));
    let mut app: App<(), Layer<()>> = App::new(());
    app.gate(noting(&log, "outer")).gate(routes(router, "/")).gate(noting(&log, "behind"));
    assert_eq!(serve(&app, get("/x")).response.status, 200);
    assert_eq!(serve(&app, get("/y")).response.status, 404);
    assert_eq!(
        log_of(&log),
        vec!["outer before", "outer after", "outer before", "outer after"]
    );
}

#[test]
fn variables_of_the_route_are_in_the_store() {
    let mut router = Router::<Layer<()>>::new();
    router.get(
        "/:kind/:id",
        endpoint(|ctx| {
            assert_eq!(ctx.try_param("kind"), Some("user".to_string()));
            assert_eq!(ctx.try_param("id"), Some("a b".to_string()));
            assert_eq!(ctx.param("id").unwrap(), "a b");
            assert_eq!(ctx.try_param("name"), None);
            assert_eq!(ctx.load(Symbol::new(0), "id"), None);
            let err = ctx.param("name").unwrap_err();
            assert_eq!(err.status_code, 400);
            assert_eq!(err.message, "router variable `name` is required");
            assert!(err.expose);
            assert_eq!(err.kind, ErrorKind::Client);
            Err(err)
        }),
    );
    let mut app: App<(), Layer<()>> = App::new(());
    app.gate(routes(router, "/"));
    let served = serve(&app, get("/user/a%20b"));
    assert_eq!(served.response.status, 400);
    assert_eq!(text(&served.response), "router variable `name` is required");
    assert!(served.thrown.is_none());
}

#[test]
fn static_route_gets_no_variables() {
    let mut router = Router::<Layer<()>>::new();
    router
        .get("/user/:id", endpoint(|_ctx| panic!("the literal route comes first")))
        .get(
            "/user/list",
            endpoint(|ctx| {
                assert_eq!(ctx.try_param("id"), None);
                ctx.response.write_str("list");
                Ok(())
            }),
        );
    let mut app: App<(), Layer<()>> = App::new(());
    app.gate(routes(router, "/"));
    let served = serve(&app, get("/user/list"));
    assert_eq!(served.response.status, 200);
    assert_eq!(text(&served.response), "list");
}

#[derive(Debug, Clone, Hash, Eq, PartialEq)]
struct User {
    name: String,
    age: u8,
    favorite_fruit: String,
}

fn write_user(user: &User) -> String {
    format!("{}|{}|{}", user.name, user.age, user.favorite_fruit)
}

fn read_user(text: &str) -> Result<User, Error> {
    let bad = || Error::new(BAD_REQUEST, format!("`{}` is no user", text), true);
    let parts: Vec<&str> = text.split('|').collect();
    if parts.len() != 3 {
        return Err(bad());
    }
    Ok(User {
        name: parts[0].to_string(),
        age: parts[1].parse().map_err(|_| bad())?,
        favorite_fruit: parts[2].to_string(),
    })
}

fn write_users(users: &[(usize, User)]) -> String {
    let lines: Vec<String> =
        users.iter().map(|(id, user)| format!("{}={}", id, write_user(user))).collect();
    lines.join("\n")
}

fn read_users(text: &str) -> Vec<(usize, User)> {
    text.lines()
        .map(|line| {
            let (id, user) = line.split_once('=').unwrap();
            (id.parse().unwrap(), read_user(user).unwrap())
        })
        .collect()
}

#[derive(Clone)]
struct DB {
    main_table: Slab<User>,
    name_index: MultiMap<String, usize>,
}

impl DB {
    fn new() -> Self {
        Self { main_table: Slab::new(), name_index: MultiMap::new() }
    }

    fn add(&mut self, user: User) -> usize {
        let name = user.name.clone();
        let id = self.main_table.insert(user);
        self.name_index.insert(name, id);
        id
    }

    fn delete_index(&mut self, name: &str, id: usize) {
        if let Some(id_set) = self.name_index.get_vec_mut(name) {
            let uids = id_set.clone();
            for (index, uid) in uids.into_iter().enumerate() {
                if uid == id {
                    id_set.remove(index);
                }
            }
        }
    }

    fn delete(&mut self, id: usize) -> Option<User> {
        if !self.main_table.contains(id) {
            None
        } else {
            let user = self.main_table.remove(id);
            self.delete_index(&user.name, id);
            Some(user)
        }
    }

    fn get(&self, id: usize) -> Option<&User> {
        self.main_table.get(id)
    }

    fn get_by_name(&self, name: &str) -> Vec<(usize, &User)> {
        match self.name_index.get_vec(name) {
            None => Vec::new(),
            Some(ids) => ids.iter().filter_map(|id| self.get(*id).map(|user| (*id, user))).collect(),
        }
    }

    fn update(&mut self, id: usize, new_user: &mut User) -> bool {
        let new_name = new_user.name.clone();
        let swapped =
            self.main_table.get_mut(id).map(|user| std::mem::swap(user, new_user)).is_some();
        if swapped {
            self.delete_index(&new_user.name, id);
            self.name_index.insert(new_name, id);
        }
        swapped
    }
}

struct AppModel {
    db: Rc<RefCell<DB>>,
}

struct AppState {
    db: Rc<RefCell<DB>>,
}

impl AppModel {
    fn new() -> Self {
        Self { db: Rc::new(RefCell::new(DB::new())) }
    }
}

impl Model for AppModel {
    type State = AppState;

    fn new_state(&self) -> Self::State {
        AppState { db: self.db.clone() }
    }
}

fn body_text(ctx: &Context<AppState>) -> String {
    String::from_utf8(ctx.request.body.clone()).unwrap()
}

fn id_param(ctx: &Context<AppState>) -> Result<usize, Error> {
    let text = ctx.param("id")?;
    text.parse().map_err(|_| Error::new(BAD_REQUEST, format!("`{}` is no id", text), true))
}

fn id_not_found(id: usize) -> Error {
    Error::new(NOT_FOUND, format!("id({}) not found", id), true)
}

fn crud_router() -> Router<Layer<AppState>> {
    let mut router = Router::<Layer<AppState>>::new();
    let mut id_router = Router::<Layer<AppState>>::new();
    router.post(
        "",
        endpoint(|ctx| {
            let user = read_user(&body_text(ctx))?;
            let id = ctx.state.db.borrow_mut().add(user);
            ctx.response.status = 201;
            ctx.response.write_str(&format!("id={}", id));
            Ok(())
        }),
    );
    id_router
        .get(
            "",
            endpoint(|ctx| {
                let id = id_param(ctx)?;
                let user = ctx.state.db.borrow().get(id).cloned();
                match user {
                    Some(user) => {
                        ctx.response.write_str(&write_user(&user));
                        Ok(())
                    }
                    None => Err(id_not_found(id)),
                }
            }),
        )
        .put(
            "",
            endpoint(|ctx| {
                let id = id_param(ctx)?;
                let mut user = read_user(&body_text(ctx))?;
                let updated = ctx.state.db.borrow_mut().update(id, &mut user);
                if updated {
                    ctx.response.write_str(&write_user(&user));
                    Ok(())
                } else {
                    Err(id_not_found(id))
                }
            }),
        )
        .delete(
            "",
            endpoint(|ctx| {
                let id = id_param(ctx)?;
                let deleted = ctx.state.db.borrow_mut().delete(id);
                match deleted {
                    Some(user) => {
                        ctx.response.write_str(&write_user(&user));
                        Ok(())
                    }
                    None => Err(id_not_found(id)),
                }
            }),
        );
    router.mount("/:id", id_router);
    router
}

#[test]
fn restful_crud() {
    let mut app: App<AppModel, Layer<AppState>> = App::new(AppModel::new());
    app.gate(routes(crud_router(), "/user"));

    // first get, 404 Not Found
    let resp = serve(&app, get("/user/0")).response;
    assert_eq!(404, resp.status);
    assert_eq!("id(0) not found", text(&resp));

    let user = User { name: "Hexilee".to_string(), age: 20, favorite_fruit: "Apple".to_string() };

    // post
    let resp = serve(&app, request(Method::post(), "/user", "", &write_user(&user))).response;
    assert_eq!(201, resp.status);
    assert_eq!("id=0", text(&resp));

    // get
    let resp = serve(&app, get("/user/0")).response;
    assert_eq!(200, resp.status);
    assert_eq!(user, read_user(&text(&resp)).unwrap());

    // put
    let another = User { name: "Bob".to_string(), age: 120, favorite_fruit: "Lemon".to_string() };
    let resp = serve(&app, request(Method::put(), "/user/0", "", &write_user(&another))).response;
    assert_eq!(200, resp.status);

    // return first user
    assert_eq!(user, read_user(&text(&resp)).unwrap());

    // updated, get new user
    let resp = serve(&app, get("/user/0")).response;
    assert_eq!(200, resp.status);
    assert_eq!(another, read_user(&text(&resp)).unwrap());

    // delete, get deleted user
    let resp = serve(&app, request(Method::delete(), "/user/0", "", "")).response;
    assert_eq!(200, resp.status);
    assert_eq!(another, read_user(&text(&resp)).unwrap());

    // delete again, 404 Not Found
    let resp = serve(&app, request(Method::delete(), "/user/0", "", "")).response;
    assert_eq!(404, resp.status);

    // put again, 404 Not Found
    let resp = serve(&app, request(Method::put(), "/user/0", "", &write_user(&another))).response;
    assert_eq!(404, resp.status);
}

struct QuerySymbol;

impl QuerySymbol {
    fn symbol() -> Symbol {
        Symbol::new(1)
    }
}

fn query_parser() -> Layer<AppState> {
    layer(|ctx, next| {
        let query = ctx.request.query.clone();
        for pair in query.split('&').filter(|pair| !pair.is_empty()) {
            let (key, value) = pair.split_once('=').unwrap_or((pair, ""));
            ctx.store(QuerySymbol::symbol(), key, value.to_string());
        }
        next(ctx)
    })
}

fn batch_router() -> Router<Layer<AppState>> {
    let mut router = Router::<Layer<AppState>>::new();
    router
        .post(
            "/user",
            endpoint(|ctx| {
                let body = body_text(ctx);
                let mut ids = Vec::new();
                for line in body.lines() {
                    let user = read_user(line)?;
                    ids.push(ctx.state.db.borrow_mut().add(user).to_string());
                }
                ctx.response.status = 201;
                ctx.response.write_str(&ids.join(","));
                Ok(())
            }),
        )
        .get(
            "/user",
            endpoint(|ctx: &mut Context<AppState>| {
                let users: Vec<(usize, User)> = {
                    let db = ctx.state.db.borrow();
                    match ctx.load(QuerySymbol::symbol(), "name") {
                        Some(name) => {
                            db.get_by_name(&name).into_iter().map(|(id, u)| (id, u.clone())).collect()
                        }
                        None => db.main_table.iter().map(|(id, u)| (id, u.clone())).collect(),
                    }
                };
                ctx.response.write_str(&write_users(&users));
                Ok(())
            }),
        );
    router
}

#[test]
fn batch() {
    let mut app: App<AppModel, Layer<AppState>> = App::new(AppModel::new());
    app.gate(query_parser()).gate(routes(batch_router(), "/"));

    // first get, list empty
    let resp = serve(&app, get("/user")).response;
    assert_eq!(200, resp.status);
    let data = read_users(&text(&resp));
    assert!(data.is_empty());

    // post batch
    let users = vec![
        User { name: "Hexilee".to_string(), age: 20, favorite_fruit: "Apple".to_string() },
        User { name: "Bob".to_string(), age: 120, favorite_fruit: "Lemon".to_string() },
        User { name: "Hexilee".to_string(), age: 40, favorite_fruit: "Orange".to_string() },
    ];
    let lines: Vec<String> = users.iter().map(write_user).collect();
    let resp = serve(&app, request(Method::post(), "/user", "", &lines.join("\n"))).response;
    assert_eq!(201, resp.status);
    let ids: Vec<usize> = text(&resp).split(',').map(|id| id.parse().unwrap()).collect();
    assert_eq!(vec![0, 1, 2], ids);

    // get all
    let resp = serve(&app, get("/user")).response;
    assert_eq!(200, resp.status);
    let data = read_users(&text(&resp));
    assert_eq!(3, data.len());
    for (index, user) in data.iter() {
        assert_eq!(&users[*index], user);
    }

    // get by name
    let resp = serve(&app, request(Method::get(), "/user", "name=Alice", "")).response;
    assert_eq!(200, resp.status);
    let data = read_users(&text(&resp));
    assert!(data.is_empty());

    let resp = serve(&app, request(Method::get(), "/user", "name=Hexilee", "")).response;
    assert_eq!(200, resp.status);
    let data = read_users(&text(&resp));
    assert_eq!(2, data.len());
    assert_eq!(0, data[0].0);
    assert_eq!(&users[0], &data[0].1);
    assert_eq!(2, data[1].0);
    assert_eq!(&users[2], &data[1].1);
}

#[test]
fn enter_binds_the_variables_before_the_chain_runs() {
    let mut router = Router::<&str>::new();
    router.gate("guard").get("/user/:id/:tab", "show").get("/about", "about");
    let endpoint = match router.routes("/") {
        Ok(endpoint) => endpoint,
        Err(_) => panic!("the routes do not conflict"),
    };
    let mut ctx = Context::fake(get("/user/7/posts"));
    ctx.store(Symbol::new(3), "id", "mine".to_string());
    let chain = endpoint.enter(&mut ctx).unwrap();
    assert_eq!(chain.into_layers(), vec![0, 1]);
    assert_eq!(ctx.try_param("id"), Some("7".to_string()));
    assert_eq!(ctx.try_param("tab"), Some("posts".to_string()));
    assert_eq!(ctx.try_param("user"), None);
    assert_eq!(ctx.load(Symbol::new(3), "id"), Some("mine".to_string()));

    let mut ctx = Context::fake(get("/about"));
    let chain = endpoint.enter(&mut ctx).unwrap();
    assert_eq!(chain.into_layers(), vec![0, 2]);
    assert_eq!(ctx.try_param("id"), None);

    let mut ctx = Context::fake(get("/nowhere"));
    assert_eq!(endpoint.enter(&mut ctx).unwrap_err().status_code, 404);
    let mut ctx = Context::fake(request(Method::post(), "/about", "", ""));
    assert_eq!(endpoint.enter(&mut ctx).unwrap_err().status_code, 405);
}
