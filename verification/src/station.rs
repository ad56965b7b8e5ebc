//! The station normalizer and the price filter.
//!
//! A raw station record carries loosely-typed fields: the brand may be
//! missing, the coordinates and the prices may be numbers or numeric strings.
//! Normalization rejects a station without a brand and one whose coordinates
//! do not coerce; it canonicalizes the brand and keeps only the price entries
//! that coerce to a strictly positive decimal, dropping the rest silently.

use vstd::prelude::*;
use crate::brand::canonical_brand;
use crate::brand::format_brand;
use crate::numeric::Decimal;
use crate::numeric::RawValue;
use crate::numeric::coerce;
use crate::numeric::coercible;
use crate::numeric::coerced_text;
use crate::numeric::numeric_positive;

verus! {

/// One raw station record, as it stands in the feed.
#[derive(Debug)]
pub struct RawStation {
    pub site_id: String,
    pub brand: Option<String>,
    pub address: String,
    pub postcode: String,
    pub latitude: RawValue,
    pub longitude: RawValue,
    pub prices: Vec<(String, RawValue)>,
}

/// Coordinates of a normalized station, as validated decimals.
#[derive(Debug, Clone)]
pub struct Location {
    pub latitude: Decimal,
    pub longitude: Decimal,
}

/// A normalized station: canonical brand, coerced coordinates, and only the
/// strictly positive, successfully coerced prices.
#[derive(Debug, Clone)]
pub struct StationPrices {
    pub site_id: String,
    pub brand: String,
    pub address: String,
    pub postcode: String,
    pub location: Location,
    pub prices: Vec<(String, Decimal)>,
}

/// Why one station was dropped from the batch.
#[derive(Debug)]
pub enum InvalidStationError {
    /// The brand field is null or absent.
    BrandNull,
    /// A coordinate is neither a number nor a numeric string.
    InvalidCoordinate,
    /// The record itself does not have the expected fields.
    MalformedRecord,
}

impl InvalidStationError {
    /// A short description of the failure.
    pub fn message(&self) -> (r: String)
        ensures
            *self is BrandNull ==> r@ == "brand is null"@,
            *self is InvalidCoordinate ==> r@ == "invalid coordinate"@,
            *self is MalformedRecord ==> r@ == "malformed station record"@,
    {
        match self {
            InvalidStationError::BrandNull => String::from_str("brand is null"),
            InvalidStationError::InvalidCoordinate => String::from_str("invalid coordinate"),
            InvalidStationError::MalformedRecord => String::from_str("malformed station record"),
        }
    }
}

/// A price entry is kept when its value coerces and is strictly positive.
pub open spec fn keeps_entry(p: (String, RawValue)) -> bool {
    coercible(p.1) && numeric_positive(coerced_text(p.1))
}

/// The retained price entries, in order, as (label, decimal text) pairs.
pub open spec fn filtered_prices(ps: Seq<(String, RawValue)>) -> Seq<(Seq<char>, Seq<char>)>
    decreases ps.len(),
{
    if ps.len() == 0 {
        Seq::empty()
    } else {
        let rest = filtered_prices(ps.drop_last());
        if keeps_entry(ps.last()) {
            rest.push((ps.last().0@, coerced_text(ps.last().1)))
        } else {
            rest
        }
    }
}

/// The (label, decimal text) view of a vector of retained prices.
pub open spec fn price_entries_view(ps: Seq<(String, Decimal)>) -> Seq<(Seq<char>, Seq<char>)> {
    ps.map_values(|p: (String, Decimal)| (p.0@, p.1.text@))
}

/// Every price entry the filter retains is strictly positive; entries that do
/// not coerce or are not strictly positive leave no trace in the result.
pub proof fn lemma_filtered_prices_positive(ps: Seq<(String, RawValue)>)
    ensures
        forall|j: int|
            0 <= j < filtered_prices(ps).len() ==> numeric_positive(
                #[trigger] filtered_prices(ps)[j].1,
            ),
    decreases ps.len(),
{
    if ps.len() > 0 {
        lemma_filtered_prices_positive(ps.drop_last());
        let rest = filtered_prices(ps.drop_last());
        let f = filtered_prices(ps);
        assert forall|j: int| 0 <= j < f.len() implies numeric_positive(f[j].1) by {
            if keeps_entry(ps.last()) {
                if j < rest.len() {
                    assert(f[j] == rest[j]);
                } else {
                    assert(f[j] == (ps.last().0@, coerced_text(ps.last().1)));
                }
            } else {
                assert(f[j] == rest[j]);
            }
        }
    }
}

/// Every entry that coerces to a strictly positive value is retained: the
/// filter drops nothing it should keep.
pub proof fn lemma_filtered_prices_complete(ps: Seq<(String, RawValue)>, i: int)
    requires
        0 <= i < ps.len(),
        keeps_entry(ps[i]),
    ensures
        filtered_prices(ps).contains((ps[i].0@, coerced_text(ps[i].1))),
    decreases ps.len(),
{
    if i == ps.len() - 1 {
        assert(ps.last() == ps[i]);
        let f = filtered_prices(ps);
        assert(f.last() == (ps[i].0@, coerced_text(ps[i].1)));
    } else {
        assert(ps.drop_last()[i] == ps[i]);
        lemma_filtered_prices_complete(ps.drop_last(), i);
        let rest = filtered_prices(ps.drop_last());
        let k = choose|k: int| 0 <= k < rest.len() && rest[k] == (ps[i].0@, coerced_text(ps[i].1));
        assert(filtered_prices(ps)[k] == (ps[i].0@, coerced_text(ps[i].1)));
    }
}

/// Run the price mapping through the filter: keep exactly the entries that
/// coerce to a strictly positive decimal, in order.
pub fn filter_prices(ps: &Vec<(String, RawValue)>) -> (r: Vec<(String, Decimal)>)
    ensures
        price_entries_view(r@) == filtered_prices(ps@),
        forall|j: int| 0 <= j < r@.len() ==> (#[trigger] r@[j].1).positive(),
{
    let mut out: Vec<(String, Decimal)> = Vec::new();
    let mut i: usize = 0;
    proof {
        assert(ps@.take(0) =~= Seq::<(String, RawValue)>::empty());
        assert(price_entries_view(out@) =~= filtered_prices(ps@.take(0)));
    }
    while i < ps.len()
        invariant
            0 <= i <= ps@.len(),
            price_entries_view(out@) == filtered_prices(ps@.take(i as int)),
            forall|j: int| 0 <= j < out@.len() ==> (#[trigger] out@[j].1).positive(),
        decreases ps@.len() - i,
    {
        let p = &ps[i];
        let ghost prefix = ps@.take(i as int);
        let ghost prefix1 = ps@.take(i as int + 1);
        proof {
            assert(prefix1.drop_last() =~= prefix);
            assert(prefix1.last() == ps@[i as int]);
        }
        match coerce(&p.1) {
            Ok(d) => {
                if d.is_positive() {
                    let label = p.0.clone();
                    out.push((label, d));
                    proof {
                        assert(price_entries_view(out@) =~= filtered_prices(prefix1));
                    }
                } else {
                    proof {
                        assert(price_entries_view(out@) =~= filtered_prices(prefix1));
                    }
                }
            },
            Err(_) => {
                proof {
                    assert(price_entries_view(out@) =~= filtered_prices(prefix1));
                }
            },
        }
        i = i + 1;
    }
    proof {
        assert(ps@.take(ps@.len() as int) =~= ps@);
    }
    out
}

impl StationPrices {
    /// Internal consistency of a normalized station: the coordinates are
    /// validated decimals and every retained price is strictly positive.
    pub open spec fn wf(&self) -> bool {
        self.location.latitude.wf() && self.location.longitude.wf() && forall|j: int|
            0 <= j < self.prices@.len() ==> (#[trigger] self.prices@[j].1).positive()
    }
}

/// A raw station normalizes exactly when its brand is present and both
/// coordinates coerce.
pub open spec fn station_ok(raw: RawStation) -> bool {
    raw.brand is Some && coercible(raw.latitude) && coercible(raw.longitude)
}

/// How a normalized station relates to the raw record it came from.
pub open spec fn station_matches(raw: RawStation, st: StationPrices) -> bool {
    &&& st.site_id@ == raw.site_id@
    &&& st.brand@ == canonical_brand(raw.brand.unwrap()@)
    &&& st.address@ == raw.address@
    &&& st.postcode@ == raw.postcode@
    &&& st.location.latitude.text@ == coerced_text(raw.latitude)
    &&& st.location.longitude.text@ == coerced_text(raw.longitude)
    &&& price_entries_view(st.prices@) == filtered_prices(raw.prices@)
}

/// Normalize one raw station: reject a null or absent brand, coerce both
/// coordinates, canonicalize the brand, and filter the prices. Filtering
/// cannot fail; it can only shrink the price mapping, possibly to empty.
pub fn normalize_station(raw: &RawStation) -> (r: Result<StationPrices, InvalidStationError>)
    ensures
        r is Ok <==> station_ok(*raw),
        r matches Ok(st) ==> station_matches(*raw, st) && st.wf(),
        raw.brand is None ==> r == Err::<StationPrices, _>(InvalidStationError::BrandNull),
        raw.brand is Some && !(coercible(raw.latitude) && coercible(raw.longitude)) ==> r == Err::<
            StationPrices,
            _,
        >(InvalidStationError::InvalidCoordinate),
{
    let b = match &raw.brand {
        Some(b) => b,
        None => {
            return Err(InvalidStationError::BrandNull);
        },
    };
    let lat = match coerce(&raw.latitude) {
        Ok(d) => d,
        Err(_) => {
            return Err(InvalidStationError::InvalidCoordinate);
        },
    };
    let lon = match coerce(&raw.longitude) {
        Ok(d) => d,
        Err(_) => {
            return Err(InvalidStationError::InvalidCoordinate);
        },
    };
    let prices = filter_prices(&raw.prices);
    Ok(
        StationPrices {
            site_id: raw.site_id.clone(),
            brand: format_brand(b.clone()),
            address: raw.address.clone(),
            postcode: raw.postcode.clone(),
            location: Location { latitude: lat, longitude: lon },
            prices,
        },
    )
}

} // verus!
