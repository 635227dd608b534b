//! The core of a small publishing site.
//!
//! * [`id_gen`] hands out sequential identifiers: always the smallest
//!   positive integer not yet in use.
//! * [`random`] draws random identifiers, for when no bookkeeping is wanted.
//! * [`article`] is the article record, and [`store`] keeps the articles of
//!   the running process, each under its identifier.
//! * [`snapshot`] says what is written out after an insert and loaded again
//!   when the process starts.
//! * [`publish`] decides what becomes of a request to create an article.
//! * [`admin`] tells the administrator from everybody else, and [`images`]
//!   says where images are kept.
//!
//! Nothing here touches the disk or the network: the program around this
//! library reads and writes, and hands over plain values.

pub mod admin;
pub mod article;
pub mod id_gen;
pub mod images;
pub mod publish;
pub mod random;
pub mod snapshot;
pub mod store;
