//! The core of a content-discovery engine: one HTTP request per payload of a
//! wordlist, sent by a fixed pool of workers, judged by a chain of filters
//! and reported with a running count.
//!
//! The crate holds the rules of the engine and none of its input and
//! output. Whoever uses it reads the wordlist, owns the HTTP client, sleeps,
//! prints and spawns the threads, and asks the crate what to do next:
//!
//! - [`reader`] splits the wordlist into lines and hands them out in
//!   disjoint chunks;
//! - [`url`] puts a payload into the URL template;
//! - [`sender`] validates the request settings and says in which order the
//!   client is set up and the target is probed;
//! - [`worker`] is the loop of one worker as a state machine, with its
//!   retries;
//! - [`filter`] decides which responses are left out;
//! - [`display`] makes the result lines and the header and counts progress;
//! - [`fuzzer`] keeps the state of the whole run;
//! - [`args`] and [`ranges`] hold the settings and the lists of numbers in
//!   them.

pub mod args;
pub mod display;
pub mod filter;
pub mod fuzzer;
pub mod progress;
pub mod ranges;
pub mod reader;
pub mod response;
pub mod sender;
pub mod text;
pub mod url;
pub mod wordlist;
pub mod worker;
