//! Fetch-and-extract pipeline: records name pages to fetch, each fetched page
//! becomes a resource with its title and description. The scheduling rules of
//! the two bounded concurrent stages and the turning of markup into resources
//! are verified here; the async runtime, the network and the queues drive them
//! from outside.
pub mod extract;
pub mod laws;
pub mod record;
pub mod stage;

pub use extract::{extract_title_and_description, resource_from_fields, resource_from_page};
pub use record::{Date, Record, Resource};
pub use stage::{Action, Event, Plan, Stage};

