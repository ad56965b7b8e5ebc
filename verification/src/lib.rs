//! Ingestion and normalization of retailer fuel-price feeds.
//!
//! A feed arrives as loosely-typed JSON: a `last_updated` timestamp in
//! `day/month/year hour:minute:second` form and a sequence of station
//! records whose numeric fields may be JSON numbers or numeric strings.
//! The library decodes the envelope, coerces and filters prices, rejects
//! stations without a brand, canonicalizes brand names, converts the feed
//! timestamp once, and returns the surviving stations in input order.
//!
//! Numeric values are carried as validated decimal text ([`numeric::Decimal`])
//! so that positivity and coercion are exact, machine-checked decisions.

pub mod brand;
pub mod feed;
pub mod jsondata;
pub mod numeric;
pub mod station;
pub mod strutil;
pub mod timestamp;
