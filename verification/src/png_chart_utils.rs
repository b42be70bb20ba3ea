//! Records and the bar chart drawn from them.
//!
//! A chart call carries an ABI-encoded array of `(string, address, uint256)`
//! records.  This module decodes them, derives each bar's colour from its
//! address, lays the bars out on a fixed canvas and PNG-encodes the painted
//! canvas.  Painting itself is left to the caller: it needs fonts and
//! floating-point coordinates.

use vstd::prelude::*;
use crate::abi::{
    declared_count, is_well_sized, label_end, lemma_cut_label_is_out_of_bounds,
    lemma_proper_prefix_is_not_well_sized, lemma_short_input_is_not_well_sized, well_sized,
};
use crate::encoding::be_value;
use crate::word::U256;

verus! {

/// Canvas width in pixels.
pub const IMG_WIDTH: u32 = 600;

/// Canvas height in pixels.
pub const IMG_HEIGHT: u32 = 400;

/// Margin around the plot in pixels.
pub const MARGIN: u32 = 40;

/// Width assumed for one character of an axis label, in pixels.
pub const CHAR_W: u32 = 2;

/// Number of characters assumed for an axis label.
pub const LABEL_CHARS: u32 = 13;

/// Bytes of an 8-bit RGB raster of the canvas: width × height × 3.
pub const RASTER_LEN: usize = 720_000;

/// One data point of the chart.
#[derive(Clone, Debug, PartialEq, Eq)]
pub struct Record {
    /// Text drawn for the bar.
    pub label: String,
    /// The account the bar belongs to; it fixes the bar's colour.
    pub record_address: [u8; 20],
    /// Amount with 18 decimal places.
    pub value: U256,
}

/// Mathematical value of a [`Record`].
pub ghost struct RecordView {
    pub label: Seq<char>,
    pub record_address: Seq<u8>,
    pub value: nat,
}

impl View for Record {
    type V = RecordView;

    open spec fn view(&self) -> RecordView {
        RecordView {
            label: self.label@,
            record_address: self.record_address@,
            value: self.value@,
        }
    }
}

/// The values of a sequence of records, in order.
pub open spec fn records_view(records: Seq<Record>) -> Seq<RecordView> {
    records.map_values(|record: Record| record@)
}

/// Why an input could not be decoded into records.
#[derive(Clone, Debug, PartialEq, Eq)]
pub struct DecodeError {
    /// Description of the failure.
    pub message: String,
}

/// What every decoding failure's description starts with.
pub open spec fn decode_error_prefix() -> Seq<char> {
    "ABI decode error: "@
}

/// Description of an input that is not well-sized: a label cannot be reached
/// or does not lie within the input, or the input is not as long as the
/// encoding of the records it declares.
pub open spec fn out_of_bounds_reason() -> Seq<char> {
    decode_error_prefix() + "ABI decoding failed: buffer overrun while deserializing"@
}

/// `alloy_sol_types::Error`, carried from the decoder to its description.
#[verifier::external_type_specification]
#[verifier::external_body]
pub struct ExAbiError(alloy_sol_types::Error);

/// What `alloy_sol_types` decodes an input to as `(string, address,
/// uint256)[]`, with or without validation; `None` where it refuses the input.
pub uninterp spec fn abi_decoding(input: Seq<u8>, validate: bool) -> Option<Seq<RecordView>>;

/// The records that an input encodes: what the decoder, validating, makes of
/// a well-sized input, and `None` for every other input.
pub open spec fn abi_decoded_records(input: Seq<u8>) -> Option<Seq<RecordView>> {
    if well_sized(input) {
        abi_decoding(input, true)
    } else {
        None
    }
}

/// Truncated input is malformed: where an input encodes records, none of
/// its proper prefixes does.
pub proof fn lemma_truncated_input_is_malformed(input: Seq<u8>, keep: int)
    requires
        0 <= keep < input.len(),
    ensures
        abi_decoded_records(input) is Some ==> abi_decoded_records(input.take(keep)) is None,
{
    if well_sized(input) {
        lemma_proper_prefix_is_not_well_sized(input, keep);
    }
}

/// An input too short to hold the place of the array and the number of
/// records is malformed.
pub proof fn lemma_short_input_is_malformed(input: Seq<u8>)
    requires
        input.len() < 64,
    ensures
        abi_decoded_records(input) is None,
{
    lemma_short_input_is_not_well_sized(input);
}

/// Misdirected input is malformed: no records are decoded from an input in
/// which the label of some declared record cannot be reached, because an
/// offset leads outside, or ends behind the end of the input.
pub proof fn lemma_misdirected_input_is_malformed(input: Seq<u8>, i: int)
    requires
        declared_count(input) matches Some(count) && 0 <= i < count,
        !(label_end(input, i) matches Some(end) && end <= input.len()),
    ensures
        abi_decoded_records(input) is None,
{
    lemma_cut_label_is_out_of_bounds(input, input.len() as int, i);
    assert(input.take(input.len() as int) =~= input);
}

/// `alloy_sol_types`' `abi_decode` for an array of `(string, address,
/// uint256)` tuples.  Whether it accepts an input, and the records it then
/// yields in their encoded order, depend on the input and the flag alone.
///
/// The decoder adds a label's length to the place of its bytes without a
/// check, and builds the encoding of what it decoded to compare it with the
/// input.  So it is only called on well-sized inputs: then every length it
/// reads is at most the length of the input, and what it builds is as long
/// as the input.
#[verifier::external_body]
fn abi_decode(input: &[u8], validate: bool) -> (decoded: Result<
    Vec<Record>,
    alloy_sol_types::Error,
>)
    requires
        well_sized(input@),
    ensures
        decoded matches Ok(records) ==> abi_decoding(input@, validate) == Some(
            records_view(records@),
        ),
        decoded is Err ==> abi_decoding(input@, validate) is None,
{
    let rows = <Vec<(
        String,
        revm::primitives::Address,
        revm::primitives::U256,
    )> as alloy_sol_types::SolValue>::abi_decode(input, validate)?;
    let mut records = Vec::new();
    for (label, account, value) in rows {
        let value = U256 { limbs: value.into_limbs() };
        records.push(Record { label, record_address: account.0.0, value });
    }
    Ok(records)
}

/// `Display` of `alloy_sol_types::Error`: the decoder's own description of
/// what it rejected.  Nothing is claimed of the text.
#[verifier::external_body]
fn abi_error_text(error: &alloy_sol_types::Error) -> (text: String) {
    format!("{}", error)
}

/// Decodes the records of a chart call.
///
/// An input that is not well-sized is refused before the decoder sees it:
/// one in which some label cannot be reached or runs past the end, or which
/// is not as long as the encoding of the records it declares.  Every other
/// input is handed to the decoder, validating: the result is the decoder's,
/// with the records in their encoded order, and a refusal carries the
/// decoder's description.
pub fn decode_records(input: &[u8]) -> (decoded: Result<Vec<Record>, DecodeError>)
    ensures
        decoded is Ok <==> abi_decoded_records(input@) is Some,
        decoded matches Ok(records) ==> abi_decoded_records(input@) == Some(
            records_view(records@),
        ),
        decoded matches Err(error) ==> decode_error_prefix().is_prefix_of(error.message@),
        decoded matches Err(error) ==> (!well_sized(input@) ==> error.message@
            == out_of_bounds_reason()),
{
    if !is_well_sized(input) {
        let message = String::from_str("ABI decode error: ").concat(
            "ABI decoding failed: buffer overrun while deserializing",
        );
        return Err(DecodeError { message });
    }
    match abi_decode(input, true) {
        Ok(records) => Ok(records),
        Err(error) => {
            let cause = abi_error_text(&error);
            let message = String::from_str("ABI decode error: ").concat(cause.as_str());
            Err(DecodeError { message })
        },
    }
}

/// A colour as red, green and blue.
#[derive(Clone, Copy, Debug, PartialEq, Eq)]
pub struct Rgb {
    pub r: u8,
    pub g: u8,
    pub b: u8,
}

/// The Keccak-256 digest of a byte string.
pub uninterp spec fn keccak256_digest(data: Seq<u8>) -> Seq<u8>;

/// `alloy_primitives`' `keccak256`: the 32-byte Keccak-256 digest of `data`.
#[verifier::external_body]
fn keccak256(data: &[u8]) -> (digest: [u8; 32])
    ensures
        digest@ == keccak256_digest(data@),
{
    revm::primitives::keccak256(data).0
}

/// The colour of an account: the first three bytes of the Keccak-256 digest
/// of its address, as red, green and blue.
pub open spec fn address_color(account: Seq<u8>) -> Rgb {
    Rgb {
        r: keccak256_digest(account)[0],
        g: keccak256_digest(account)[1],
        b: keccak256_digest(account)[2],
    }
}

/// Derives a colour from a 20-byte address.  The same address always gives
/// the same colour.
pub fn address2color(addr: &[u8; 20]) -> (color: Rgb)
    ensures
        color == address_color(addr@),
{
    let digest = keccak256(addr.as_slice());
    Rgb { r: digest[0], g: digest[1], b: digest[2] }
}

/// Base units in one whole unit of value: 10^18.
pub const VALUE_UNIT: u64 = 1_000_000_000_000_000_000;

/// Height of the bar for `value`: the whole units in it, and `u64::MAX`
/// where they do not fit in 64 bits.
pub open spec fn scaled_value(value: nat) -> u64 {
    if value / (VALUE_UNIT as nat) <= u64::MAX {
        (value / (VALUE_UNIT as nat)) as u64
    } else {
        u64::MAX
    }
}

/// Scales a record's value to a bar height.
pub fn scale_value(value: &U256) -> (height: u64)
    ensures
        height == scaled_value(value@),
{
    value.wrapping_div(U256::from_u64(VALUE_UNIT)).saturating_to_u64()
}

/// One bar of the chart.
#[derive(Clone, Debug, PartialEq, Eq)]
pub struct Bar {
    /// Text drawn for the bar.
    pub label: String,
    /// Fill colour.
    pub color: Rgb,
    /// Height in whole units of value.
    pub height: u64,
}

/// Mathematical value of a [`Bar`].
pub ghost struct BarView {
    pub label: Seq<char>,
    pub color: Rgb,
    pub height: u64,
}

impl View for Bar {
    type V = BarView;

    open spec fn view(&self) -> BarView {
        BarView { label: self.label@, color: self.color, height: self.height }
    }
}

/// The layout of a chart: what is to be painted on the canvas.
#[derive(Clone, Debug, PartialEq, Eq)]
pub struct Chart {
    /// The bars from left to right, one per record in decoding order.
    pub bars: Vec<Bar>,
    /// Upper end of the Y axis; the lower end is zero.
    pub y_max: u128,
    /// Width of one bar in pixels.
    pub bar_width: u32,
    /// Horizontal shift of the axis labels in pixels.
    pub x_label_offset: i32,
}

/// Mathematical value of a [`Chart`].
pub ghost struct ChartView {
    pub bars: Seq<BarView>,
    pub y_max: nat,
    pub bar_width: nat,
    pub x_label_offset: int,
}

impl View for Chart {
    type V = ChartView;

    open spec fn view(&self) -> ChartView {
        ChartView {
            bars: self.bars@.map_values(|bar: Bar| bar@),
            y_max: self.y_max as nat,
            bar_width: self.bar_width as nat,
            x_label_offset: self.x_label_offset as int,
        }
    }
}

/// The bar drawn for a record.
pub open spec fn bar_of(record: RecordView) -> BarView {
    BarView {
        label: record.label,
        color: address_color(record.record_address),
        height: scaled_value(record.value),
    }
}

/// The greatest height among the bars; zero where there is none.
pub open spec fn max_height(bars: Seq<BarView>) -> nat
    decreases bars.len(),
{
    if bars.len() == 0 {
        0
    } else if bars.last().height > max_height(bars.drop_last()) {
        bars.last().height as nat
    } else {
        max_height(bars.drop_last())
    }
}

/// Upper end of the Y axis for bars up to `tallest`: 20 for small charts,
/// else an eighth of headroom and a pad of 16 above the tallest bar.
pub open spec fn y_axis_max(tallest: nat) -> nat {
    if tallest < 10 {
        20
    } else {
        tallest + tallest / 8 + 16
    }
}

/// Width of one of `count` bars that share the canvas between the margins;
/// zero where there is no bar.
pub open spec fn bar_width(count: nat) -> nat {
    if count == 0 {
        0
    } else {
        (IMG_WIDTH - 2 * MARGIN) as nat / count
    }
}

/// Shift that centres an axis label under a bar of the given width.
pub open spec fn x_label_offset(bar_width: nat) -> int {
    bar_width / 2 - (LABEL_CHARS * CHAR_W / 2) as int
}

/// The chart laid out for a sequence of records.
pub open spec fn chart_of(records: Seq<RecordView>) -> ChartView {
    let bars = records.map_values(|record: RecordView| bar_of(record));
    ChartView {
        bars,
        y_max: y_axis_max(max_height(bars)),
        bar_width: bar_width(bars.len()),
        x_label_offset: x_label_offset(bar_width(bars.len())),
    }
}

/// `max_height` is the maximum: no bar is taller, and unless the chart is
/// empty some bar is that tall.
pub proof fn lemma_max_height_is_maximum(bars: Seq<BarView>)
    ensures
        forall|i: int| 0 <= i < bars.len() ==> bars[i].height <= max_height(bars),
        bars.len() > 0 ==> exists|i: int| 0 <= i < bars.len() && bars[i].height == max_height(bars),
        bars.len() == 0 ==> max_height(bars) == 0,
    decreases bars.len(),
{
    if bars.len() > 0 {
        let front = bars.drop_last();
        lemma_max_height_is_maximum(front);
        assert forall|i: int| 0 <= i < bars.len() implies bars[i].height <= max_height(bars) by {
            if i < front.len() {
                assert(front[i] == bars[i]);
            }
        }
        if bars.last().height > max_height(front) || front.len() == 0 {
            assert(bars[bars.len() - 1].height == max_height(bars));
        } else {
            let i = choose|i: int| 0 <= i < front.len() && front[i].height == max_height(front);
            assert(bars[i].height == max_height(bars));
        }
    }
}

/// The chart has one bar for each record, in the order of the records, and
/// bar `i` carries the label, the address colour and the scaled value of
/// record `i`.  Records of one address get one colour.
pub proof fn lemma_chart_bars(records: Seq<RecordView>, i: int, j: int)
    requires
        0 <= i < records.len(),
        0 <= j < records.len(),
    ensures
        chart_of(records).bars.len() == records.len(),
        chart_of(records).bars[i] == bar_of(records[i]),
        chart_of(records).bars[i].color == address_color(records[i].record_address),
        records[i].record_address == records[j].record_address ==> chart_of(records).bars[i].color
            == chart_of(records).bars[j].color,
{
}

/// The chart depends on a value only through its scaled height: records
/// that agree in labels, addresses and scaled values give the same chart.
pub proof fn lemma_chart_depends_on_scaled_values(first: Seq<RecordView>, second: Seq<RecordView>)
    requires
        first.len() == second.len(),
        forall|i: int|
            0 <= i < first.len() ==> {
                &&& first[i].label == second[i].label
                &&& first[i].record_address == second[i].record_address
                &&& scaled_value(first[i].value) == scaled_value(second[i].value)
            },
    ensures
        chart_of(first) == chart_of(second),
{
    let bars = |records: Seq<RecordView>| records.map_values(|record: RecordView| bar_of(record));
    assert(bars(first) =~= bars(second));
}

/// Lays out the bar chart for `records`: one bar per record in the given
/// order, coloured by the record's address and as high as its scaled value.
pub fn render_chart(records: Vec<Record>) -> (chart: Chart)
    ensures
        chart@ == chart_of(records_view(records@)),
{
    let ghost target = records_view(records@).map_values(|record: RecordView| bar_of(record));
    let mut bars: Vec<Bar> = Vec::new();
    let mut tallest: u64 = 0;
    let mut i: usize = 0;
    while i < records.len()
        invariant
            i <= records@.len(),
            target == records_view(records@).map_values(|record: RecordView| bar_of(record)),
            bars@.map_values(|bar: Bar| bar@) == target.take(i as int),
            tallest == max_height(target.take(i as int)),
        decreases records@.len() - i,
    {
        let record = &records[i];
        let bar = Bar {
            label: record.label.clone(),
            color: address2color(&record.record_address),
            height: scale_value(&record.value),
        };
        proof {
            let after = target.take(i + 1);
            assert(after.drop_last() =~= target.take(i as int));
            assert(bars@.push(bar).map_values(|bar: Bar| bar@) =~= after);
        }
        if bar.height > tallest {
            tallest = bar.height;
        }
        bars.push(bar);
        i += 1;
    }
    proof {
        assert(target.take(i as int) =~= target);
    }
    let y_max: u128 = if tallest < 10 {
        20
    } else {
        tallest as u128 + (tallest / 8) as u128 + 16
    };
    let available: u32 = IMG_WIDTH - 2 * MARGIN;
    let count: usize = bars.len();
    let bar_width: u32 = if count == 0 {
        0
    } else if count > available as usize {
        proof {
            vstd::arithmetic::div_mod::lemma_basic_div(available as int, count as int);
        }
        0
    } else {
        available / (count as u32)
    };
    let half_label: u32 = LABEL_CHARS * CHAR_W / 2;
    let x_label_offset: i32 = (bar_width / 2) as i32 - half_label as i32;
    Chart { bars, y_max, bar_width, x_label_offset }
}

/// Why a chart could not be rendered.
#[derive(Clone, Debug, PartialEq, Eq)]
pub struct RenderError {
    /// Description of the failure.
    pub message: String,
}

/// Description of a raster that does not have the size of the canvas.
pub open spec fn raster_size_reason() -> Seq<char> {
    "raster does not match the canvas"@
}

/// The eight bytes every PNG file starts with.
pub open spec fn png_signature() -> Seq<u8> {
    seq![0x89u8, 0x50u8, 0x4Eu8, 0x47u8, 0x0Du8, 0x0Au8, 0x1Au8, 0x0Au8]
}

/// How the header chunk of a PNG file starts: its length, 13, and its type,
/// `IHDR`.
pub open spec fn png_header_start() -> Seq<u8> {
    seq![0u8, 0u8, 0u8, 13u8, 0x49u8, 0x48u8, 0x44u8, 0x52u8]
}

/// Whether `png` starts as a PNG file of 8-bit RGB pixels of the given size
/// does: with the signature, then the header chunk with the big-endian width
/// and height, the bit depth 8 and the colour type 2.
pub open spec fn is_rgb8_png(png: Seq<u8>, width: nat, height: nat) -> bool {
    &&& png.len() >= 26
    &&& png.subrange(0, 8) == png_signature()
    &&& png.subrange(8, 16) == png_header_start()
    &&& be_value(png.subrange(16, 20)) == width
    &&& be_value(png.subrange(20, 24)) == height
    &&& png[24] == 8
    &&& png[25] == 2
}

/// `image::ImageError`, carried from the encoder to its description.
#[verifier::external_type_specification]
#[verifier::external_body]
pub struct ExImageError(image::ImageError);

/// The PNG file that `image` encodes a raster of 8-bit RGB pixels to, or
/// `None` where it fails.
pub uninterp spec fn png_encoding(raster: Seq<u8>, width: u32, height: u32) -> Option<Seq<u8>>;

/// `image`'s `PngEncoder::write_image` for 8-bit RGB pixels, writing into
/// memory.  The raster must hold three bytes for each pixel.  Whether the
/// encoder succeeds, and the bytes it then writes, depend on the raster and
/// the size alone.  What it writes starts with the PNG signature and the
/// header chunk that records the size, the bit depth and the colour type.
#[verifier::external_body]
fn write_png_rgb8(raster: &[u8], width: u32, height: u32) -> (written: Result<
    Vec<u8>,
    image::ImageError,
>)
    requires
        raster@.len() == width as nat * height as nat * 3,
    ensures
        written matches Ok(png) ==> png_encoding(raster@, width, height) == Some(png@)
            && is_rgb8_png(png@, width as nat, height as nat),
        written is Err ==> png_encoding(raster@, width, height) is None,
{
    let mut png = Vec::new();
    let encoder = image::codecs::png::PngEncoder::new(&mut png);
    let color = image::ColorType::Rgb8.into();
    image::ImageEncoder::write_image(encoder, raster, width, height, color)?;
    Ok(png)
}

/// `Display` of `image::ImageError`: the encoder's own description of its
/// failure.  Nothing is claimed of the text.
#[verifier::external_body]
fn image_error_text(error: &image::ImageError) -> (text: String) {
    format!("{}", error)
}

/// The PNG file of a painted canvas: what the encoder makes of a raster of
/// the size of the canvas, and `None` for every other raster.
pub open spec fn chart_encoding(raster: Seq<u8>) -> Option<Seq<u8>> {
    if raster.len() == RASTER_LEN {
        png_encoding(raster, IMG_WIDTH, IMG_HEIGHT)
    } else {
        None
    }
}

/// PNG-encodes a painted canvas: 600 × 400 pixels of 8-bit RGB, row by row.
///
/// A raster of any other size is refused.  A raster of the right size is
/// handed to the encoder: the result is the encoder's, and a failure carries
/// the encoder's description.
pub fn encode_chart(raster: &[u8]) -> (encoded: Result<Vec<u8>, RenderError>)
    ensures
        encoded is Ok <==> chart_encoding(raster@) is Some,
        encoded matches Ok(png) ==> chart_encoding(raster@) == Some(png@) && is_rgb8_png(
            png@,
            IMG_WIDTH as nat,
            IMG_HEIGHT as nat,
        ),
        encoded matches Err(error) ==> (raster@.len() != RASTER_LEN ==> error.message@
            == raster_size_reason()),
{
    if raster.len() != RASTER_LEN {
        let message = String::from_str("raster does not match the canvas");
        return Err(RenderError { message });
    }
    match write_png_rgb8(raster, IMG_WIDTH, IMG_HEIGHT) {
        Ok(png) => Ok(png),
        Err(error) => Err(RenderError { message: image_error_text(&error) }),
    }
}

} // verus!
