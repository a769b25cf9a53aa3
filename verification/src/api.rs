//! The query-serving boundary's decisions: answering a TWAP query from
//! the store, signing the result, and building both the reply and the
//! attestation handed to the gossip layer. Transporting the reply and
//! probing the backing connection are the caller's job.
use vstd::prelude::*;

use crate::numeric::dec_repr;
use crate::p2p::TwapMessage;
use crate::signing::{ecdsa_valid, SigningService};
use crate::store::{filter_window, pair_records, sum_prices, window_start, PriceStore};

verus! {

/// The liveness reply of the health endpoint.
pub struct HealthResponse {
    pub status: String,
    pub redis_connection: bool,
}

/// A TWAP query: the trading pair, and an optional trailing window in
/// seconds.
pub struct TwapQuery {
    pub pair_id: String,
    pub period: Option<u64>,
}

/// The reply to a successful TWAP query.
#[derive(Debug, PartialEq, Eq)]
pub struct TwapResponse {
    pub pair_id: String,
    pub twap: String,
    pub period: u64,
    pub signature: String,
}

/// The reply to a failed request.
pub struct ErrorResponse {
    pub error: String,
}

/// Why a TWAP query was not answered.
#[derive(PartialEq, Eq, Structural, Clone, Copy, Debug)]
pub enum TwapQueryError {
    /// No record lies in the queried window: a not-found outcome, not
    /// a server error.
    NoData,
}

/// Builds the not-found reply for a pair with no data in the window.
pub fn not_found_response(pair_id: &str) -> (r: ErrorResponse)
    ensures
        r.error@ == "No data found for pair "@ + pair_id@,
{
    let mut error = "No data found for pair ".to_owned();
    error.append(pair_id);
    ErrorResponse { error }
}

/// Builds the health reply: the service is up, and the backing
/// connection's probe came back as given.
pub fn health_response(redis_connection: bool) -> (r: HealthResponse)
    ensures
        r.status@ == "up"@,
        r.redis_connection == redis_connection,
{
    HealthResponse { status: "up".to_owned(), redis_connection }
}

/// The window a query asks about: its period, defaulting to one hour.
pub open spec fn query_period(period: Option<u64>) -> u64 {
    match period {
        Some(p) => p,
        None => 3600,
    }
}

/// Answers one TWAP query at wall-clock second `now`: computes the
/// trailing-window TWAP for the pair, truncates it to an integer, signs
/// it, and builds both the reply and the attestation to broadcast.
/// Returns the not-found outcome exactly when the window holds no
/// record.
pub fn answer_twap_query(
    store: &PriceStore,
    signer: &SigningService,
    query: &TwapQuery,
    now: u64,
) -> (r: Result<(TwapResponse, TwapMessage), TwapQueryError>)
    requires
        store.wf(),
    ensures
        ({
            let period = query_period(query.period);
            let window = filter_window(
                pair_records(store@, query.pair_id@),
                Some(window_start(now, period)),
                Some(now),
            );
            match r {
                Ok((response, message)) => window.len() > 0 && {
                    let floor = sum_prices(window) / window.len() as int;
                    &&& response.pair_id@ == query.pair_id@
                    &&& response.period == period
                    &&& response.twap@ == dec_repr(floor as nat)
                    &&& response.signature@ == message.signature@
                    &&& message.pair_id@ == query.pair_id@
                    &&& message.twap@ == dec_repr(floor as nat)
                    &&& message.period == period
                    &&& message.timestamp == now
                    &&& message.public_key@ == crate::hexutil::hex_of(
                        signer.spec_public_key_bytes(),
                    )
                    &&& exists|sig: Seq<u8>|
                        {
                            &&& message.signature@ == crate::hexutil::hex_of(sig)
                            &&& crate::signing::is_der_sig(sig)
                            &&& #[trigger] ecdsa_valid(crate::signing::twap_digest(floor), sig,
                            signer.spec_public_key_bytes())
                        }
                    &&& floor <= i64::MAX ==> crate::signing::spec_verify_twap(
                        message.twap@,
                        message.signature@,
                        message.public_key@,
                    )
                },
                Err(TwapQueryError::NoData) => window.len() == 0,
            }
        }),
{
    let period = match query.period {
        Some(p) => p,
        None => 3600,
    };
    let twap = match store.compute_twap(query.pair_id.as_str(), period, now) {
        Some(t) => t,
        None => {
            return Err(TwapQueryError::NoData);
        },
    };
    let floor = twap.mean_floor();
    let signature = signer.sign_twap(floor);
    let twap_text = crate::numeric::u64_to_dec_string(floor);
    let public_key = signer.get_public_key().to_owned();
    let response = TwapResponse {
        pair_id: query.pair_id.clone(),
        twap: twap_text.clone(),
        period,
        signature: signature.clone(),
    };
    let message = TwapMessage {
        pair_id: query.pair_id.clone(),
        twap: twap_text,
        period,
        signature,
        timestamp: now,
        public_key,
    };
    proof {
        let window = filter_window(
            pair_records(store@, query.pair_id@),
            Some(window_start(now, period)),
            Some(now),
        );
        let floor_spec = sum_prices(window) / window.len() as int;
        assert(floor == floor_spec);
        if floor <= i64::MAX {
            let sig = choose|sig: Seq<u8>|
                {
                    &&& message.signature@ == crate::hexutil::hex_of(sig)
                    &&& crate::signing::is_der_sig(sig)
                    &&& #[trigger] ecdsa_valid(crate::signing::twap_digest(floor as int), sig,
                    signer.spec_public_key_bytes())
                };
            crate::signing::lemma_sign_verify_round_trip(
                floor,
                sig,
                signer.spec_public_key_bytes(),
            );
        }
    }
    Ok((response, message))
}

} // verus!
