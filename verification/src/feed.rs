//! The feed processor: decodes the envelope, converts the feed timestamp
//! once, normalizes every station, drops the failures, and attaches the one
//! shared timestamp to every surviving station's price block.

use vstd::prelude::*;
use crate::jsondata::is_array_of;
use crate::jsondata::is_null_of;
use crate::jsondata::is_object_of;
use crate::jsondata::json_from_str;
use crate::jsondata::json_parses;
use crate::jsondata::number_text_of;
use crate::jsondata::string_of;
use crate::jsondata::object_entries;
use crate::jsondata::value_into_array;
use crate::jsondata::value_into_object;
use crate::jsondata::value_into_string;
use crate::jsondata::value_is_null;
use crate::jsondata::value_number_text;
use crate::numeric::Decimal;
use crate::numeric::RawValue;
use crate::numeric::coerced_text;
use crate::numeric::numeric_positive;
use crate::station::lemma_filtered_prices_positive;
use crate::strutil::str_eq;
use crate::brand::canonical_brand;
use crate::station::Location;
use crate::station::RawStation;
use crate::station::StationPrices;
use crate::station::filtered_prices;
use crate::station::normalize_station;
use crate::station::price_entries_view;
use crate::station::station_matches;
use crate::station::station_ok;
use crate::timestamp::parse_datetime;
use crate::timestamp::parts_of;
use crate::timestamp::render_spec;
use crate::timestamp::valid_timestamp;

verus! {

/// One element of the feed's station sequence: a station record, or an
/// element that does not have the expected fields at all.
#[derive(Debug)]
pub enum RawRecord {
    Station(RawStation),
    Malformed,
}

/// The decoded envelope: the feed timestamp and the raw station sequence.
#[derive(Debug)]
pub struct FuelStationData {
    pub last_updated: String,
    pub stations: Vec<RawRecord>,
}

/// One price block: the retained prices and the feed's converted timestamp.
#[derive(Debug, Clone)]
pub struct PriceLastUpdated {
    pub prices: Vec<(String, Decimal)>,
    pub lu: String,
}

/// A normalized station with its single price block.
#[derive(Debug, Clone)]
pub struct StationPriceLastUpdated {
    pub site_id: String,
    pub brand: String,
    pub address: String,
    pub postcode: String,
    pub location: Location,
    pub prices: Vec<PriceLastUpdated>,
}

/// Why a whole batch was rejected.
#[derive(Debug)]
pub enum EnvelopeDecodeError {
    /// The input text is not syntactically valid JSON.
    Syntax,
    /// The envelope does not have the minimal shape: a `last_updated` string
    /// and a `stations` sequence.
    Shape,
    /// The feed-level timestamp does not parse.
    Timestamp,
}

/// The stations that survive normalization, in input order.
pub open spec fn successes_of(records: Seq<RawRecord>) -> Seq<RawStation>
    decreases records.len(),
{
    if records.len() == 0 {
        Seq::empty()
    } else {
        let rest = successes_of(records.drop_last());
        match records.last() {
            RawRecord::Station(raw) => if station_ok(raw) {
                rest.push(raw)
            } else {
                rest
            },
            RawRecord::Malformed => rest,
        }
    }
}

/// Only stations that normalize appear in the output: every survivor has a
/// present brand and coercible coordinates, so a record with a null or
/// absent brand is absent from the output while the batch itself goes on.
pub proof fn lemma_successes_are_ok(records: Seq<RawRecord>)
    ensures
        forall|j: int|
            0 <= j < successes_of(records).len() ==> station_ok(
                #[trigger] successes_of(records)[j],
            ),
    decreases records.len(),
{
    if records.len() > 0 {
        lemma_successes_are_ok(records.drop_last());
        let rest = successes_of(records.drop_last());
        let f = successes_of(records);
        assert forall|j: int| 0 <= j < f.len() implies station_ok(f[j]) by {
            if j < rest.len() {
                assert(f[j] == rest[j]);
            }
        }
    }
}

/// Normalize each record and collect only the successes, in input order.
/// A failure never aborts the batch or stops the records after it.
pub fn process_stations(records: &Vec<RawRecord>) -> (r: Vec<StationPrices>)
    ensures
        r@.len() == successes_of(records@).len(),
        forall|j: int|
            0 <= j < r@.len() ==> station_matches(successes_of(records@)[j], #[trigger] r@[j])
                && r@[j].wf(),
{
    let mut out: Vec<StationPrices> = Vec::new();
    let mut i: usize = 0;
    proof {
        assert(records@.take(0) =~= Seq::<RawRecord>::empty());
    }
    while i < records.len()
        invariant
            0 <= i <= records@.len(),
            out@.len() == successes_of(records@.take(i as int)).len(),
            forall|j: int|
                0 <= j < out@.len() ==> station_matches(
                    successes_of(records@.take(i as int))[j],
                    #[trigger] out@[j],
                ) && out@[j].wf(),
        decreases records@.len() - i,
    {
        let ghost prefix = records@.take(i as int);
        let ghost prefix1 = records@.take(i as int + 1);
        proof {
            assert(prefix1.drop_last() =~= prefix);
            assert(prefix1.last() == records@[i as int]);
        }
        match &records[i] {
            RawRecord::Station(raw) => {
                match normalize_station(raw) {
                    Ok(st) => {
                        out.push(st);
                    },
                    Err(_) => {},
                }
            },
            RawRecord::Malformed => {},
        }
        i = i + 1;
    }
    proof {
        assert(records@.take(records@.len() as int) =~= records@);
    }
    out
}

/// How one output station relates to the raw record it came from and to the
/// feed's converted timestamp: the normalized fields, and exactly one price
/// block carrying the shared timestamp.
pub open spec fn out_station_matches(
    raw: RawStation,
    o: StationPriceLastUpdated,
    ts: Seq<char>,
) -> bool {
    &&& o.site_id@ == raw.site_id@
    &&& o.brand@ == canonical_brand(raw.brand.unwrap()@)
    &&& o.address@ == raw.address@
    &&& o.postcode@ == raw.postcode@
    &&& o.location.latitude.text@ == coerced_text(raw.latitude)
    &&& o.location.longitude.text@ == coerced_text(raw.longitude)
    &&& o.prices@.len() == 1
    &&& price_entries_view(o.prices@[0].prices@) == filtered_prices(raw.prices@)
    &&& o.prices@[0].lu@ == ts
}

/// Process a decoded feed. An empty station sequence yields an empty output
/// at once; otherwise the timestamp is converted exactly once (a failure is
/// fatal for the whole batch), every station that normalizes is kept in
/// input order, and each carries the one shared timestamp.
pub fn process_feed(feed: &FuelStationData) -> (r: Result<
    Vec<StationPriceLastUpdated>,
    EnvelopeDecodeError,
>)
    ensures
        feed.stations@.len() == 0 ==> (r matches Ok(v) && v@.len() == 0),
        feed.stations@.len() > 0 && !valid_timestamp(feed.last_updated@) ==> r == Err::<
            Vec<StationPriceLastUpdated>,
            _,
        >(EnvelopeDecodeError::Timestamp),
        feed.stations@.len() > 0 && valid_timestamp(feed.last_updated@) ==> (r matches Ok(v)
            && v@.len() == successes_of(feed.stations@).len() && forall|j: int|
            0 <= j < v@.len() ==> out_station_matches(
                successes_of(feed.stations@)[j],
                #[trigger] v@[j],
                render_spec(parts_of(feed.last_updated@)),
            )),
{
    if feed.stations.len() == 0 {
        return Ok(Vec::new());
    }
    let ts = match parse_datetime(feed.last_updated.as_str()) {
        Ok(t) => t,
        Err(_) => {
            return Err(EnvelopeDecodeError::Timestamp);
        },
    };
    let records = &feed.stations;
    let mut out: Vec<StationPriceLastUpdated> = Vec::new();
    let mut i: usize = 0;
    proof {
        assert(records@.take(0) =~= Seq::<RawRecord>::empty());
    }
    while i < records.len()
        invariant
            0 <= i <= records@.len(),
            ts@ == render_spec(parts_of(feed.last_updated@)),
            out@.len() == successes_of(records@.take(i as int)).len(),
            forall|j: int|
                0 <= j < out@.len() ==> out_station_matches(
                    successes_of(records@.take(i as int))[j],
                    #[trigger] out@[j],
                    ts@,
                ),
        decreases records@.len() - i,
    {
        let ghost prefix = records@.take(i as int);
        let ghost prefix1 = records@.take(i as int + 1);
        proof {
            assert(prefix1.drop_last() =~= prefix);
            assert(prefix1.last() == records@[i as int]);
        }
        match &records[i] {
            RawRecord::Station(raw) => {
                match normalize_station(raw) {
                    Ok(st) => {
                        let mut blocks: Vec<PriceLastUpdated> = Vec::new();
                        blocks.push(PriceLastUpdated { prices: st.prices, lu: ts.clone() });
                        out.push(
                            StationPriceLastUpdated {
                                site_id: st.site_id,
                                brand: st.brand,
                                address: st.address,
                                postcode: st.postcode,
                                location: st.location,
                                prices: blocks,
                            },
                        );
                    },
                    Err(_) => {},
                }
            },
            RawRecord::Malformed => {},
        }
        i = i + 1;
    }
    proof {
        assert(records@.take(records@.len() as int) =~= records@);
    }
    Ok(out)
}

/// Sort one JSON value into the feed's loose value classes: null, number
/// (kept as its decimal text), string, or anything else.
fn classify_value(v: serde_json::Value) -> (r: RawValue)
    ensures
        is_null_of(v) ==> r is Null,
        (!is_null_of(v) && number_text_of(v) is Some) ==> (r matches RawValue::Num(x)
            && number_text_of(v) == Some(x@)),
        (!is_null_of(v) && number_text_of(v) is None && string_of(v) is Some) ==> (r matches
            RawValue::Str(x) && string_of(v) == Some(x@)),
        (!is_null_of(v) && number_text_of(v) is None && string_of(v) is None) ==> r is Other,
{
    if value_is_null(&v) {
        return RawValue::Null;
    }
    match value_number_text(&v) {
        Some(t) => RawValue::Num(t),
        None => match value_into_string(v) {
            Ok(s) => RawValue::Str(s),
            Err(_) => RawValue::Other,
        },
    }
}

/// Decode one element of the station sequence. An element that is not an
/// object, or whose required fields are missing or of the wrong structural
/// type, is a malformed record; a null or absent brand is kept as such, for
/// the normalizer to reject.
fn decode_station(v: serde_json::Value) -> (r: RawRecord)
    ensures
        !is_object_of(v) ==> r is Malformed,
{
    let m = match value_into_object(v) {
        Ok(m) => m,
        Err(_) => {
            return RawRecord::Malformed;
        },
    };
    let mut entries = object_entries(m);
    let mut site_id: Option<String> = None;
    let mut brand: Option<String> = None;
    let mut address: Option<String> = None;
    let mut postcode: Option<String> = None;
    let mut latitude: Option<RawValue> = None;
    let mut longitude: Option<RawValue> = None;
    let mut prices: Option<Vec<(String, RawValue)>> = None;
    while entries.len() > 0
        decreases entries@.len(),
    {
        let (k, v) = entries.remove(0);
        if str_eq(k.as_str(), "site_id") {
            match value_into_string(v) {
                Ok(s) => site_id = Some(s),
                Err(_) => {
                    return RawRecord::Malformed;
                },
            }
        } else if str_eq(k.as_str(), "brand") {
            if !value_is_null(&v) {
                match value_into_string(v) {
                    Ok(s) => brand = Some(s),
                    Err(_) => {
                        return RawRecord::Malformed;
                    },
                }
            }
        } else if str_eq(k.as_str(), "address") {
            match value_into_string(v) {
                Ok(s) => address = Some(s),
                Err(_) => {
                    return RawRecord::Malformed;
                },
            }
        } else if str_eq(k.as_str(), "postcode") {
            match value_into_string(v) {
                Ok(s) => postcode = Some(s),
                Err(_) => {
                    return RawRecord::Malformed;
                },
            }
        } else if str_eq(k.as_str(), "location") {
            let lm = match value_into_object(v) {
                Ok(lm) => lm,
                Err(_) => {
                    return RawRecord::Malformed;
                },
            };
            let mut les = object_entries(lm);
            while les.len() > 0
                decreases les@.len(),
            {
                let (lk, lv) = les.remove(0);
                if str_eq(lk.as_str(), "latitude") {
                    latitude = Some(classify_value(lv));
                } else if str_eq(lk.as_str(), "longitude") {
                    longitude = Some(classify_value(lv));
                }
            }
        } else if str_eq(k.as_str(), "prices") {
            let pm = match value_into_object(v) {
                Ok(pm) => pm,
                Err(_) => {
                    return RawRecord::Malformed;
                },
            };
            let mut pes = object_entries(pm);
            let mut plist: Vec<(String, RawValue)> = Vec::new();
            while pes.len() > 0
                decreases pes@.len(),
            {
                let (pk, pv) = pes.remove(0);
                plist.push((pk, classify_value(pv)));
            }
            prices = Some(plist);
        }
    }
    if site_id.is_none() || address.is_none() || postcode.is_none() || latitude.is_none()
        || longitude.is_none() || prices.is_none() {
        return RawRecord::Malformed;
    }
    RawRecord::Station(
        RawStation {
            site_id: site_id.unwrap(),
            brand,
            address: address.unwrap(),
            postcode: postcode.unwrap(),
            latitude: latitude.unwrap(),
            longitude: longitude.unwrap(),
            prices: prices.unwrap(),
        },
    )
}

/// Decode the envelope from JSON text: text that is not valid JSON is a
/// syntax error; a top level that is not an object with a `last_updated`
/// string and a `stations` array is a shape error. Station elements are
/// decoded one by one; a bad element becomes a malformed record, never an
/// envelope error.
pub fn decode_feed(json_data: &str) -> (r: Result<FuelStationData, EnvelopeDecodeError>)
    ensures
        r matches Err(e) ==> (e is Syntax || e is Shape),
        r == Err::<FuelStationData, _>(EnvelopeDecodeError::Syntax) <==> !json_parses(
            json_data@,
        ),
{
    let v = match json_from_str(json_data) {
        Ok(v) => v,
        Err(_) => {
            return Err(EnvelopeDecodeError::Syntax);
        },
    };
    let m = match value_into_object(v) {
        Ok(m) => m,
        Err(_) => {
            return Err(EnvelopeDecodeError::Shape);
        },
    };
    let mut entries = object_entries(m);
    let mut last_updated: Option<String> = None;
    let mut stations: Option<Vec<RawRecord>> = None;
    while entries.len() > 0
        invariant
            json_parses(json_data@),
        decreases entries@.len(),
    {
        let (k, v) = entries.remove(0);
        if str_eq(k.as_str(), "last_updated") {
            match value_into_string(v) {
                Ok(s) => last_updated = Some(s),
                Err(_) => {
                    return Err(EnvelopeDecodeError::Shape);
                },
            }
        } else if str_eq(k.as_str(), "stations") {
            let mut arr = match value_into_array(v) {
                Ok(a) => a,
                Err(_) => {
                    return Err(EnvelopeDecodeError::Shape);
                },
            };
            let mut recs: Vec<RawRecord> = Vec::new();
            while arr.len() > 0
                invariant
                    json_parses(json_data@),
                decreases arr@.len(),
            {
                let el = arr.remove(0);
                recs.push(decode_station(el));
            }
            stations = Some(recs);
        }
    }
    if last_updated.is_none() || stations.is_none() {
        return Err(EnvelopeDecodeError::Shape);
    }
    Ok(FuelStationData { last_updated: last_updated.unwrap(), stations: stations.unwrap() })
}

/// Process a feed from its JSON text: decode the envelope, then run the
/// batch. Whatever the decoder produced, every station of a successful
/// output carries exactly one price block, all of whose prices are strictly
/// positive, and all output stations share one timestamp.
pub fn process_data(json_data: &str) -> (r: Result<
    Vec<StationPriceLastUpdated>,
    EnvelopeDecodeError,
>)
    ensures
        r matches Ok(v) ==> (forall|j: int|
            0 <= j < v@.len() ==> (#[trigger] v@[j]).prices@.len() == 1),
        r matches Ok(v) ==> (forall|j: int, p: int|
            #![trigger v@[j].prices@[0].prices@[p]]
            0 <= j < v@.len() && 0 <= p < v@[j].prices@[0].prices@.len() ==> numeric_positive(
                v@[j].prices@[0].prices@[p].1.text@,
            )),
        r matches Ok(v) ==> (forall|j: int, k: int|
            #![trigger v@[j].prices@, v@[k].prices@]
            0 <= j < v@.len() && 0 <= k < v@.len() ==> v@[j].prices@[0].lu@
                == v@[k].prices@[0].lu@),
        r == Err::<Vec<StationPriceLastUpdated>, _>(EnvelopeDecodeError::Syntax)
            <==> !json_parses(json_data@),
{
    let feed = match decode_feed(json_data) {
        Ok(f) => f,
        Err(e) => {
            return Err(e);
        },
    };
    let r = process_feed(&feed);
    proof {
        assert(r is Ok || r == Err::<Vec<StationPriceLastUpdated>, _>(
            EnvelopeDecodeError::Timestamp,
        ));
        if r is Ok {
            let v = r->Ok_0;
            let succ = successes_of(feed.stations@);
            assert forall|j: int, p: int|
                #![trigger v@[j].prices@[0].prices@[p]]
                0 <= j < v@.len() && 0 <= p < v@[j].prices@[0].prices@.len() implies numeric_positive(
                v@[j].prices@[0].prices@[p].1.text@,
            ) by {
                assert(out_station_matches(
                    succ[j],
                    v@[j],
                    render_spec(parts_of(feed.last_updated@)),
                ));
                lemma_filtered_prices_positive(succ[j].prices@);
                let x = v@[j].prices@[0].prices@;
                assert(price_entries_view(x) == filtered_prices(succ[j].prices@));
                assert(price_entries_view(x)[p] == (x[p].0@, x[p].1.text@));
                assert(numeric_positive(filtered_prices(succ[j].prices@)[p].1));
            }
        }
    }
    r
}

} // verus!
