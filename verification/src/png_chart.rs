//! The chart precompile.
//!
//! The input is an ABI-encoded array of records.  The call costs a base fee
//! plus a fee for each record, and returns a PNG bar chart of the records.
//!
//! The call runs in two steps around the painting of the canvas, which is the
//! caller's part.  [`png_chart`] meters the call, decodes the records and lays
//! the chart out; [`ChartJob::finish`] takes the painted canvas, PNG-encodes it
//! and forms the result of the call.

use vstd::prelude::*;
use crate::abi::well_sized;
use crate::gas::GasSchedule;
use crate::outcome::{
    empty_input_reason, outcome, Failure, Output, PrecompileError, PrecompileOutput,
    PrecompileResult,
};
use crate::png_chart_utils::{
    abi_decoded_records, chart_encoding, chart_of, decode_error_prefix, decode_records,
    encode_chart, is_rgb8_png, out_of_bounds_reason, raster_size_reason, records_view,
    render_chart, Chart, ChartView, DecodeError, Record, RecordView, RenderError, IMG_HEIGHT,
    IMG_WIDTH, RASTER_LEN,
};

verus! {

/// Address of the precompile.
pub const ADDRESS: u64 = 0xC0;

/// Gas charged for every call.
pub const GAS_BASE_FEE: u64 = 25_000;

/// Gas charged for each record.
pub const GAS_PER_DATA_POINT: u64 = 1_000;

/// Gas consumed by a call with `count` records.
pub open spec fn chart_gas(count: nat) -> nat {
    GAS_BASE_FEE as nat + GAS_PER_DATA_POINT as nat * count
}

/// Revert reason of a call whose input could not be decoded.
pub open spec fn decoding_failed_reason(cause: Seq<char>) -> Seq<char> {
    "input decoding failed: "@ + cause
}

/// Revert reason of a call whose chart could not be rendered.
pub open spec fn plot_error_reason(cause: Seq<char>) -> Seq<char> {
    "Plot error: "@ + cause
}

/// A metered chart call that waits for its canvas to be painted.
#[derive(Clone, Debug, PartialEq, Eq)]
pub struct ChartJob {
    /// Gas charged for the call.
    pub gas_used: u64,
    /// What is to be painted.
    pub chart: Chart,
}

/// Mathematical value of a [`ChartJob`].
pub ghost struct ChartJobView {
    pub gas_used: nat,
    pub chart: ChartView,
}

impl View for ChartJob {
    type V = ChartJobView;

    open spec fn view(&self) -> ChartJobView {
        ChartJobView { gas_used: self.gas_used as nat, chart: self.chart@ }
    }
}

/// Mathematical value of the result of the first step.
pub open spec fn job_outcome(result: Result<ChartJob, PrecompileError>) -> Result<
    ChartJobView,
    Failure,
> {
    match result {
        Ok(job) => Ok(job@),
        Err(error) => Err(error@),
    }
}

/// Mathematical value of the result of decoding.
pub open spec fn decoded_view(decoded: Result<Vec<Record>, DecodeError>) -> Result<
    Seq<RecordView>,
    Seq<char>,
> {
    match decoded {
        Ok(records) => Ok(records_view(records@)),
        Err(error) => Err(error.message@),
    }
}

/// Mathematical value of a canvas or a rendered chart that may have failed.
pub open spec fn rendered_view(rendered: Result<Vec<u8>, RenderError>) -> Result<
    Seq<u8>,
    Seq<char>,
> {
    match rendered {
        Ok(bytes) => Ok(bytes@),
        Err(error) => Err(error.message@),
    }
}

/// What the first step returns once the input has been decoded.
pub open spec fn chart_job_result(
    decoded: Result<Seq<RecordView>, Seq<char>>,
    gas_limit: u64,
) -> Result<ChartJobView, Failure> {
    match decoded {
        Err(cause) => Err(Failure::InvalidInput(decoding_failed_reason(cause))),
        Ok(records) => if chart_gas(records.len()) > gas_limit {
            Err(Failure::OutOfGas)
        } else {
            Ok(ChartJobView { gas_used: chart_gas(records.len()), chart: chart_of(records) })
        },
    }
}

/// What the first step returns, as a function of the input, the gas limit
/// and the decoder's description of a malformed input.
pub open spec fn png_chart_result(input: Seq<u8>, gas_limit: u64, cause: Seq<char>) -> Result<
    ChartJobView,
    Failure,
> {
    if gas_limit < GAS_BASE_FEE + GAS_PER_DATA_POINT {
        Err(Failure::OutOfGas)
    } else if input.len() == 0 {
        Err(Failure::InvalidInput(empty_input_reason()))
    } else {
        match abi_decoded_records(input) {
            Some(records) => chart_job_result(Ok(records), gas_limit),
            None => chart_job_result(Err(cause), gas_limit),
        }
    }
}

/// What the call returns once the chart has been rendered, or has failed to.
pub open spec fn plot_result(gas_used: u64, rendered: Result<Seq<u8>, Seq<char>>) -> Result<
    Output,
    Failure,
> {
    match rendered {
        Ok(png) => Ok(Output { gas_used: gas_used as nat, bytes: png }),
        Err(cause) => Err(Failure::InvalidInput(plot_error_reason(cause))),
    }
}

/// What the second step returns, as a function of the gas charged, the
/// painted canvas or the reason why there is none, and the encoder's
/// description of a failure to encode.
pub open spec fn finish_result(
    gas_used: u64,
    painted: Result<Seq<u8>, Seq<char>>,
    cause: Seq<char>,
) -> Result<Output, Failure> {
    match painted {
        Err(unpainted) => plot_result(gas_used, Err(unpainted)),
        Ok(raster) => if raster.len() != RASTER_LEN {
            plot_result(gas_used, Err(raster_size_reason()))
        } else {
            match chart_encoding(raster) {
                Some(png) => plot_result(gas_used, Ok(png)),
                None => plot_result(gas_used, Err(cause)),
            }
        },
    }
}

/// The cost of a call is the base fee plus the fee for each record.  A call
/// whose input decodes succeeds exactly when the gas limit covers the fee for
/// one record and the cost of the call, and else fails for want of gas.
pub proof fn lemma_png_chart_gas(input: Seq<u8>, gas_limit: u64, cause: Seq<char>)
    requires
        input.len() > 0,
    ensures
        abi_decoded_records(input) matches Some(records) ==> {
            let result = png_chart_result(input, gas_limit, cause);
            &&& result is Ok <==> gas_limit >= 26_000 && gas_limit >= 25_000 + 1_000
                * records.len()
            &&& result matches Ok(job) ==> job.gas_used == 25_000 + 1_000 * records.len()
            &&& result is Err ==> result == Err::<ChartJobView, Failure>(Failure::OutOfGas)
        },
{
}

/// A call without input is refused as empty, whatever gas limit at or above
/// the fee for one record it comes with.
pub proof fn lemma_png_chart_empty_input(gas_limit: u64, cause: Seq<char>)
    requires
        gas_limit >= GAS_BASE_FEE + GAS_PER_DATA_POINT,
    ensures
        png_chart_result(Seq::empty(), gas_limit, cause) == Err::<ChartJobView, Failure>(
            Failure::InvalidInput(empty_input_reason()),
        ),
{
}

/// Two calls with the same input and the same gas limit succeed together,
/// and then charge the same gas and lay out the same chart.  Where they fail
/// they fail alike, but for the decoder's description of a malformed input.
pub proof fn lemma_png_chart_deterministic(
    first: Result<ChartJob, PrecompileError>,
    second: Result<ChartJob, PrecompileError>,
    input: Seq<u8>,
    gas_limit: u64,
    first_cause: Seq<char>,
    second_cause: Seq<char>,
)
    requires
        job_outcome(first) == png_chart_result(input, gas_limit, first_cause),
        job_outcome(second) == png_chart_result(input, gas_limit, second_cause),
    ensures
        first is Ok <==> second is Ok,
        first is Ok ==> job_outcome(first) == job_outcome(second),
        first_cause == second_cause ==> job_outcome(first) == job_outcome(second),
        job_outcome(first) != job_outcome(second) ==> abi_decoded_records(input) is None,
{
}

/// Two runs of the second step on the same gas and the same painted canvas
/// succeed together, and then return the same bytes.  Where they fail they
/// fail alike, but for the encoder's description of a failure to encode.
pub proof fn lemma_finish_deterministic(
    first: PrecompileResult,
    second: PrecompileResult,
    gas_used: u64,
    painted: Result<Seq<u8>, Seq<char>>,
    first_cause: Seq<char>,
    second_cause: Seq<char>,
)
    requires
        outcome(first) == finish_result(gas_used, painted, first_cause),
        outcome(second) == finish_result(gas_used, painted, second_cause),
    ensures
        first is Ok <==> second is Ok,
        first is Ok ==> outcome(first) == outcome(second),
        first_cause == second_cause ==> outcome(first) == outcome(second),
        outcome(first) != outcome(second) ==> (painted matches Ok(raster) && raster.len()
            == RASTER_LEN && chart_encoding(raster) is None),
{
}

/// Meters a call whose input has been decoded, and lays out its chart.
///
/// A decoding failure becomes an invalid input.  The charge is the base fee
/// plus the fee for each record, and a limit below it is a shortage of gas.
pub fn chart_job(decoded: Result<Vec<Record>, DecodeError>, gas_limit: u64) -> (result: Result<
    ChartJob,
    PrecompileError,
>)
    ensures
        job_outcome(result) == chart_job_result(decoded_view(decoded), gas_limit),
{
    let records = match decoded {
        Ok(records) => records,
        Err(error) => {
            let reason = String::from_str("input decoding failed: ").concat(
                error.message.as_str(),
            );
            return Err(PrecompileError::InvalidInput(reason));
        },
    };
    let schedule = GasSchedule { base_fee: GAS_BASE_FEE, per_unit_fee: GAS_PER_DATA_POINT };
    let gas_used = match schedule.charge(records.len() as u64, gas_limit) {
        Ok(gas_used) => gas_used,
        Err(error) => {
            return Err(error);
        },
    };
    Ok(ChartJob { gas_used, chart: render_chart(records) })
}

/// First step of the precompile: meters the call, decodes the records and
/// lays out the chart to paint.
///
/// Fails with a shortage of gas where `gas_limit` is below the base fee plus
/// the fee for one record, or below the cost of the call; with an invalid
/// input where `input` is empty or malformed.  The reason given for
/// malformed input is the decoder's, and a fixed one for input that is not
/// well-sized.
pub fn png_chart(input: &[u8], gas_limit: u64) -> (result: Result<ChartJob, PrecompileError>)
    ensures
        exists|cause: Seq<char>|
            {
                &&& decode_error_prefix().is_prefix_of(cause)
                &&& !well_sized(input@) ==> cause == out_of_bounds_reason()
                &&& job_outcome(result) == #[trigger] png_chart_result(input@, gas_limit, cause)
            },
{
    if gas_limit < GAS_BASE_FEE + GAS_PER_DATA_POINT {
        assert(job_outcome(Err(PrecompileError::OutOfGas)) == png_chart_result(
            input@,
            gas_limit,
            out_of_bounds_reason(),
        ));
        return Err(PrecompileError::OutOfGas);
    }
    if input.len() == 0 {
        let error = PrecompileError::empty_input();
        assert(job_outcome(Err(error)) == png_chart_result(
            input@,
            gas_limit,
            out_of_bounds_reason(),
        ));
        return Err(error);
    }
    let decoded = decode_records(input);
    let ghost cause = match decoded_view(decoded) {
        Ok(_) => out_of_bounds_reason(),
        Err(cause) => cause,
    };
    let result = chart_job(decoded, gas_limit);
    assert(job_outcome(result) == png_chart_result(input@, gas_limit, cause));
    result
}

/// Forms the result of a call from the gas charged and the rendered chart:
/// the PNG bytes as output, or an invalid input that tells why there are none.
pub fn plot_outcome(gas_used: u64, rendered: Result<Vec<u8>, RenderError>) -> (result:
    PrecompileResult)
    ensures
        outcome(result) == plot_result(gas_used, rendered_view(rendered)),
{
    match rendered {
        Ok(png) => Ok(PrecompileOutput::new(gas_used, png)),
        Err(error) => {
            let reason = String::from_str("Plot error: ").concat(error.message.as_str());
            Err(PrecompileError::InvalidInput(reason))
        },
    }
}

impl ChartJob {
    /// Second step of the precompile: PNG-encodes the painted canvas and
    /// forms the result of the call.
    ///
    /// `painted` is the canvas as 600 × 400 pixels of 8-bit RGB, or the
    /// reason why it could not be painted.  A failure to paint, a canvas of
    /// another size and a failure to encode all become an invalid input.  A
    /// canvas that encodes becomes the output, with the gas charged in the
    /// first step.
    pub fn finish(self, painted: Result<Vec<u8>, RenderError>) -> (result: PrecompileResult)
        ensures
            exists|cause: Seq<char>|
                outcome(result) == #[trigger] finish_result(
                    self.gas_used,
                    rendered_view(painted),
                    cause,
                ),
            result matches Ok(output) ==> is_rgb8_png(
                output.bytes@,
                IMG_WIDTH as nat,
                IMG_HEIGHT as nat,
            ),
    {
        let ghost canvas = rendered_view(painted);
        let rendered = match painted {
            Ok(raster) => encode_chart(raster.as_slice()),
            Err(error) => Err(error),
        };
        let ghost cause = match rendered_view(rendered) {
            Ok(_) => Seq::<char>::empty(),
            Err(cause) => cause,
        };
        let result = plot_outcome(self.gas_used, rendered);
        assert(outcome(result) == finish_result(self.gas_used, canvas, cause));
        result
    }
}

} // verus!
