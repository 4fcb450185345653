use std::sync::{Arc, Mutex};
use tokenx::{Hook, TokenProxy, TokenResolver};

struct LoggingResolver(Arc<Mutex<Vec<String>>>);
impl TokenResolver for LoggingResolver {
    type Token = u32;
    type Resolved = u32;
    type Event = String;
    fn resolve(&self, token: u32) -> (u32, String) {
        self.0.lock().unwrap().push(format!("resolve:{token}"));
        (token * 10, format!("event-{token}"))
    }
}

struct Named(&'static str, Arc<Mutex<Vec<String>>>);
impl Hook<u32, String> for Named {
    fn pre_hook(&self, token: &u32) {
        self.1.lock().unwrap().push(format!("{}:pre:{token}", self.0));
    }
    fn post_hook(&self, event: &String) {
        self.1.lock().unwrap().push(format!("{}:post:{event}", self.0));
    }
}

struct Silent;
impl Hook<u32, String> for Silent {}

#[test]
fn hooks_fire_in_registration_order_around_resolution() {
    let log = Arc::new(Mutex::new(vec![]));
    let proxy = TokenProxy::new(LoggingResolver(log.clone()))
        .add_hook(Named("first", log.clone()))
        .add_hook(Named("second", log.clone()))
        .add_hook(Named("third", log.clone()));
    assert_eq!(proxy.handle_request(4), 40);
    assert_eq!(
        *log.lock().unwrap(),
        vec![
            "first:pre:4",
            "second:pre:4",
            "third:pre:4",
            "resolve:4",
            "first:post:event-4",
            "second:post:event-4",
            "third:post:event-4",
        ]
    );
}

#[test]
fn single_hook_wraps_the_resolution() {
    let log = Arc::new(Mutex::new(vec![]));
    let proxy = TokenProxy::new(LoggingResolver(log.clone())).add_hook(Named("only", log.clone()));
    assert_eq!(proxy.handle_request(7), 70);
    assert_eq!(
        *log.lock().unwrap(),
        vec!["only:pre:7", "resolve:7", "only:post:event-7"]
    );
}

#[test]
fn default_hook_methods_do_nothing() {
    let log = Arc::new(Mutex::new(vec![]));
    let proxy = TokenProxy::new(LoggingResolver(log.clone())).add_hook(Silent);
    assert_eq!(proxy.handle_request(2), 20);
    assert_eq!(*log.lock().unwrap(), vec!["resolve:2"]);
}

#[test]
fn each_request_runs_the_chain_again() {
    let log = Arc::new(Mutex::new(vec![]));
    let proxy = TokenProxy::new(LoggingResolver(log.clone())).add_hook(Named("h", log.clone()));
    assert_eq!(proxy.handle_request(1), 10);
    assert_eq!(proxy.handle_request(2), 20);
    assert_eq!(
        *log.lock().unwrap(),
        vec!["h:pre:1", "resolve:1", "h:post:event-1", "h:pre:2", "resolve:2", "h:post:event-2"]
    );
}
