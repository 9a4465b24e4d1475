use std::cell::RefCell;
use std::rc::Rc;

use bytes::Bytes;
use http::{HeaderMap, HeaderValue};
use http_fancy::body::{Body, Collect, CollectError, Collector, Frame, Polled, Step};

type Log = Rc<RefCell<Vec<String>>>;

/// A sink that writes down every call it gets.
struct Recorder {
    log: Log,
    held: usize,
    refuse_append: bool,
    refuse_consume: bool,
}

impl Recorder {
    fn new(log: &Log) -> Self {
        Recorder { log: log.clone(), held: 0, refuse_append: false, refuse_consume: false }
    }
}

impl Collector for Recorder {
    type Output = usize;
    type Error = String;

    fn append(&mut self, data: Bytes) -> Option<String> {
        self.log.borrow_mut().push(format!("append {}", String::from_utf8_lossy(&data)));
        if self.refuse_append {
            return Some("no room".to_owned());
        }
        self.held += data.len();
        None
    }

    fn len(&self) -> usize {
        self.held
    }

    fn on_trailers(&mut self, headers: HeaderMap) {
        let name = headers.keys().next().map(|key| key.as_str().to_owned()).unwrap_or_default();
        self.log.borrow_mut().push(format!("trailers {}", name));
    }

    fn consume(&mut self) -> Result<usize, String> {
        self.log.borrow_mut().push("consume".to_owned());
        if self.refuse_consume {
            Err("spoiled".to_owned())
        } else {
            Ok(self.held)
        }
    }
}

fn data(bytes: &'static [u8]) -> Polled<&'static str> {
    Polled::Frame(Frame::Data(Bytes::from_static(bytes)))
}

fn trailers(name: &'static str) -> Polled<&'static str> {
    let mut headers = HeaderMap::new();
    headers.insert(name, HeaderValue::from_static("1"));
    Polled::Frame(Frame::Trailers(headers))
}

fn is_continue<R>(step: &Step<R>) -> bool {
    matches!(step, Step::Continue)
}

#[test]
fn empty_chunk_then_data_within_limit() {
    let mut pump = Collect::<2, _, _>::new((), Vec::new());
    assert!(is_continue(&pump.advance(data(b""))));
    assert!(is_continue(&pump.advance(data(b"ab"))));
    match pump.advance(Polled::<&'static str>::Exhausted) {
        Step::Done(Ok(output)) => assert_eq!(output, b"ab"),
        _ => panic!("the aggregation should have succeeded"),
    }
}

#[test]
fn transport_failure_after_one_chunk() {
    let mut pump = Collect::<10, _, _>::new((), Vec::new());
    assert!(is_continue(&pump.advance(data(b"abc"))));
    match pump.advance(Polled::Error("connection reset")) {
        Step::Done(Err(CollectError::Transport(cause))) => assert_eq!(cause, "connection reset"),
        _ => panic!("the transport error should have ended the aggregation"),
    }
}

#[test]
fn not_ready_suspends_and_resumes() {
    let log = Log::default();
    let mut pump = Collect::<10, _, _>::new((), Recorder::new(&log));
    assert!(is_continue(&pump.advance(data(b"ab"))));
    assert!(matches!(pump.advance(Polled::<&'static str>::NotReady), Step::Suspend));
    assert!(is_continue(&pump.advance(data(b"cd"))));
    match pump.advance(Polled::<&'static str>::Exhausted) {
        Step::Done(Ok(total)) => assert_eq!(total, 4),
        _ => panic!("the aggregation should have succeeded"),
    }
    assert_eq!(*log.borrow(), vec!["append ab", "append cd", "consume"]);
}

#[test]
fn chunks_come_out_concatenated_in_order() {
    let mut pump = Collect::<64, _, _>::new((), Vec::new());
    assert!(is_continue(&pump.advance(data(b"one,"))));
    assert!(is_continue(&pump.advance(data(b"two,"))));
    assert!(is_continue(&pump.advance(data(b"three"))));
    match pump.advance(Polled::<&'static str>::Exhausted) {
        Step::Done(Ok(output)) => assert_eq!(output, b"one,two,three"),
        _ => panic!("the aggregation should have succeeded"),
    }
}

#[test]
fn total_equal_to_limit_succeeds() {
    let mut pump = Collect::<5, _, _>::new((), Vec::new());
    assert!(is_continue(&pump.advance(data(b"abc"))));
    assert!(is_continue(&pump.advance(data(b"de"))));
    match pump.advance(Polled::<&'static str>::Exhausted) {
        Step::Done(Ok(output)) => assert_eq!(output, b"abcde"),
        _ => panic!("the aggregation should have succeeded"),
    }
}

#[test]
fn one_byte_over_limit_overflows() {
    let mut pump = Collect::<5, _, _>::new((), Vec::new());
    assert!(is_continue(&pump.advance(data(b"abc"))));
    assert!(matches!(pump.advance(data(b"def")), Step::Done(Err(CollectError::Overflow))));
}

#[test]
fn limit_zero_takes_only_an_empty_body() {
    let mut pump = Collect::<0, _, _>::new((), Vec::new());
    assert!(is_continue(&pump.advance(data(b""))));
    match pump.advance(Polled::<&'static str>::Exhausted) {
        Step::Done(Ok(output)) => assert!(output.is_empty()),
        _ => panic!("the aggregation should have succeeded"),
    }
    let mut pump = Collect::<0, _, _>::new((), Vec::new());
    assert!(matches!(pump.advance(data(b"a")), Step::Done(Err(CollectError::Overflow))));
}

#[test]
fn overflow_leaves_the_sink_alone() {
    let log = Log::default();
    let mut pump = Collect::<3, _, _>::new((), Recorder::new(&log));
    assert!(is_continue(&pump.advance(data(b"ab"))));
    assert!(matches!(pump.advance(data(b"cd")), Step::Done(Err(CollectError::Overflow))));
    assert_eq!(*log.borrow(), vec!["append ab"]);
}

#[test]
fn limit_counts_what_the_sink_already_holds() {
    let mut pump = Collect::<4, _, _>::new((), b"abc".to_vec());
    assert!(matches!(pump.advance(data(b"de")), Step::Done(Err(CollectError::Overflow))));
    let mut pump = Collect::<4, _, _>::new((), b"abc".to_vec());
    assert!(is_continue(&pump.advance(data(b"d"))));
    match pump.advance(Polled::<&'static str>::Exhausted) {
        Step::Done(Ok(output)) => assert_eq!(output, b"abcd"),
        _ => panic!("the aggregation should have succeeded"),
    }
}

#[test]
fn empty_chunk_is_skipped_even_over_the_limit() {
    let mut pump = Collect::<1, _, _>::new((), b"abc".to_vec());
    assert!(is_continue(&pump.advance(data(b""))));
    match pump.advance(Polled::<&'static str>::Exhausted) {
        Step::Done(Ok(output)) => assert_eq!(output, b"abc"),
        _ => panic!("the aggregation should have succeeded"),
    }
}

#[test]
fn empty_chunks_never_reach_the_sink() {
    let log = Log::default();
    let mut pump = Collect::<4, _, _>::new((), Recorder::new(&log));
    assert!(is_continue(&pump.advance(data(b""))));
    assert!(is_continue(&pump.advance(data(b"ab"))));
    assert!(is_continue(&pump.advance(data(b""))));
    assert!(is_continue(&pump.advance(data(b"cd"))));
    assert!(is_continue(&pump.advance(data(b""))));
    match pump.advance(Polled::<&'static str>::Exhausted) {
        Step::Done(Ok(total)) => assert_eq!(total, 4),
        _ => panic!("the aggregation should have succeeded"),
    }
    assert_eq!(*log.borrow(), vec!["append ab", "append cd", "consume"]);
}

#[test]
fn trailers_reach_the_hook_in_order_and_count_for_nothing() {
    let log = Log::default();
    let mut pump = Collect::<2, _, _>::new((), Recorder::new(&log));
    assert!(is_continue(&pump.advance(trailers("first"))));
    assert!(is_continue(&pump.advance(data(b"ab"))));
    assert!(is_continue(&pump.advance(trailers("second"))));
    assert!(is_continue(&pump.advance(trailers("third"))));
    match pump.advance(Polled::<&'static str>::Exhausted) {
        Step::Done(Ok(total)) => assert_eq!(total, 2),
        _ => panic!("the aggregation should have succeeded"),
    }
    assert_eq!(
        *log.borrow(),
        vec!["trailers first", "append ab", "trailers second", "trailers third", "consume"]
    );
}

#[test]
fn trailers_do_not_change_the_output() {
    let mut pump = Collect::<2, _, _>::new((), Vec::new());
    assert!(is_continue(&pump.advance(data(b"a"))));
    assert!(is_continue(&pump.advance(trailers("checksum"))));
    assert!(is_continue(&pump.advance(data(b"b"))));
    match pump.advance(Polled::<&'static str>::Exhausted) {
        Step::Done(Ok(output)) => assert_eq!(output, b"ab"),
        _ => panic!("the aggregation should have succeeded"),
    }
}

#[test]
fn refused_chunk_ends_with_the_sink_error() {
    let log = Log::default();
    let mut sink = Recorder::new(&log);
    sink.refuse_append = true;
    let mut pump = Collect::<8, _, _>::new((), sink);
    match pump.advance(data(b"ab")) {
        Step::Done(Err(CollectError::Collector(cause))) => assert_eq!(cause, "no room"),
        _ => panic!("the sink error should have ended the aggregation"),
    }
    assert_eq!(*log.borrow(), vec!["append ab"]);
}

#[test]
fn failed_finalize_ends_with_the_sink_error() {
    let log = Log::default();
    let mut sink = Recorder::new(&log);
    sink.refuse_consume = true;
    let mut pump = Collect::<8, _, _>::new((), sink);
    assert!(is_continue(&pump.advance(data(b"ab"))));
    match pump.advance(Polled::<&'static str>::Exhausted) {
        Step::Done(Err(CollectError::Collector(cause))) => assert_eq!(cause, "spoiled"),
        _ => panic!("the sink error should have ended the aggregation"),
    }
    assert_eq!(*log.borrow(), vec!["append ab", "consume"]);
}

#[test]
fn unlikely_collector_wraps_the_sink_error() {
    let wrapped = CollectError::<(), &str>::unlikely_collector("broken");
    assert!(matches!(wrapped, CollectError::Collector("broken")));
}

#[test]
fn body_mut_lends_the_source() {
    let mut pump = Collect::<8, _, Vec<u8>>::new(Body::from("abc"), Vec::new());
    assert_eq!(pump.body_mut().size_hint(), 3);
    assert!(matches!(pump.body_mut().poll_frame(), Polled::Frame(Frame::Data(_))));
    assert!(pump.body_mut().is_end_stream());
}

#[test]
fn empty_body_collects_to_nothing() {
    let mut pump = Collect::<0, _, _>::new(Body::empty(), Vec::new());
    match pump.poll() {
        Ok(output) => assert!(output.is_empty()),
        Err(_) => panic!("the aggregation should have succeeded"),
    }
}

#[test]
fn body_at_the_limit_collects_whole() {
    let mut pump = Collect::<5, _, _>::new(Body::from(b"hello".to_vec()), Vec::new());
    match pump.poll() {
        Ok(output) => assert_eq!(output, b"hello"),
        Err(_) => panic!("the aggregation should have succeeded"),
    }
}

#[test]
fn body_over_the_limit_never_finalizes() {
    let log = Log::default();
    let mut pump = Collect::<4, _, _>::new(Body::from(b"hello".to_vec()), Recorder::new(&log));
    assert!(matches!(pump.poll(), Err(CollectError::Overflow)));
    assert!(log.borrow().is_empty());
}

#[test]
fn body_refused_by_the_sink_reports_it() {
    let log = Log::default();
    let mut sink = Recorder::new(&log);
    sink.refuse_append = true;
    let mut pump = Collect::<8, _, _>::new(Body::from("ab"), sink);
    match pump.poll() {
        Err(CollectError::Collector(cause)) => assert_eq!(cause, "no room"),
        _ => panic!("the sink error should have ended the aggregation"),
    }
}
