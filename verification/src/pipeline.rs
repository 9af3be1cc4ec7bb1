//! The conversion pipeline: size check, metadata stripping, decoding,
//! resizing and encoding, with memory checkpoints between the steps.
//!
//! Reading the resident set size is I/O, so the pipeline does not read it
//! itself: a [`Conversion`] stops at each checkpoint and is resumed with the
//! reading the caller took. `None` stands for "not available" and passes
//! the checkpoint.
//!
//! | Checkpoint | `convert` | `convert_multi` |
//! |---|---|---|
//! | baseline of the decode guard | reading 0 | reading 0 |
//! | before decoding | reading 1 | reading 1 |
//! | after decoding | reading 2 | reading 2 |
//! | baseline of the encode guard | — | reading 3 |
//! | before resizing / before encoding the k-th distinct resolution | — | readings 4 + 2k, 5 + 2k |

use vstd::prelude::*;

use crate::config::Config;
use crate::decoder::{decode, spec_decode, ImageView, PixelData, Pixels, RawImage};
use crate::metadata::copy_bytes;
use crate::encoder::rav1e_wrapper::{encode_avif, planes_are_10_bit, spec_encode};
use crate::error::{decimal_text, message_text, Error, ErrorKind};
use vstd::string::StringExecFns;
use crate::memory_guard::{baseline_of, guard_verdict, MemoryGuard};
use crate::metadata::{
    is_stripped_output, jpeg_read_segments, jpeg_written_bytes, kept_jpeg_segments, kept_png_chunks,
    kept_webp_chunks, png_file_bytes, png_read_chunks, spec_detect_format, strip_metadata,
    strip_refused, webp_file_bytes, webp_read_chunks, ImageFormat,
};
use crate::resize::{resize_raw_image, spec_resize, OutputResolution};

verus! {

/// What the metadata step may hand to the decoder: with `strip` off, the
/// input itself; with it on, `UnsupportedFormat` for an unrecognised
/// format, the input itself for a recognised container that does not
/// parse, and otherwise the bytes that `img_parts` writes back.
pub open spec fn is_prepared(strip: bool, input: Seq<u8>, p: Result<Seq<u8>, ErrorKind>) -> bool {
    if !strip {
        p == Ok::<Seq<u8>, ErrorKind>(input)
    } else if strip_refused(input) {
        p == Err::<Seq<u8>, ErrorKind>(ErrorKind::UnsupportedFormat)
    } else {
        p matches Ok(out) && is_stripped_output(input, out)
    }
}

/// The resolution that `convert` uses: the first configured one, or
/// `Original` when the list is empty.
pub open spec fn convert_resolution(cfg: Config) -> OutputResolution {
    if cfg.output_resolutions@.len() == 0 {
        OutputResolution::Original
    } else {
        cfg.output_resolutions@[0]
    }
}

/// The resolutions that `convert_multi` produces, in order: the configured
/// list, or `[Original]` when it is empty.
pub open spec fn requested_resolutions(cfg: Config) -> Seq<OutputResolution> {
    if cfg.output_resolutions@.len() == 0 {
        seq![OutputResolution::Original]
    } else {
        cfg.output_resolutions@
    }
}

/// The distinct elements of `s`, in order of first occurrence.
pub open spec fn dedup(s: Seq<OutputResolution>) -> Seq<OutputResolution>
    decreases s.len(),
{
    if s.len() == 0 {
        seq![]
    } else {
        let d = dedup(s.drop_last());
        if d.contains(s.last()) {
            d
        } else {
            d.push(s.last())
        }
    }
}

/// Resize `img` for `res`, then encode it with the settings of `cfg` and,
/// for 16-bit samples, the YCbCr planes `ycbcr` of the resized image; an
/// image with no pixel cannot be encoded.
pub open spec fn spec_encode_at(
    cfg: Config,
    img: ImageView,
    res: OutputResolution,
    ycbcr: Seq<[u16; 3]>,
) -> Result<Seq<u8>, ErrorKind> {
    let r = spec_resize(img, res);
    if r.0 == 0 || r.1 == 0 {
        Err(ErrorKind::Encode)
    } else {
        spec_encode(r, cfg.quality, cfg.speed, cfg.alpha_quality, ycbcr)
    }
}

/// Encoding `img` takes 10-bit YCbCr planes from the caller: it holds
/// 16-bit samples and at least one pixel.
pub open spec fn needs_ycbcr(img: ImageView) -> bool {
    &&& img.2 is Rgba16
    &&& img.0 > 0
    &&& img.1 > 0
}

/// The decoded image of a conversion, given the input, what the metadata
/// step produced, and the first three RSS readings: the input-size check,
/// the decode guard's baseline (reading 0) and checks before (reading 1) and
/// after (reading 2) decoding.
pub open spec fn spec_validate_and_decode(
    cfg: Config,
    input: Seq<u8>,
    prepared: Result<Seq<u8>, ErrorKind>,
    rss: Seq<Option<u64>>,
) -> Result<ImageView, ErrorKind> {
    if input.len() > cfg.max_input_bytes {
        Err(ErrorKind::Decode)
    } else {
        let baseline = baseline_of(rss[0]);
        match guard_verdict(cfg.memory_limit_bytes, baseline, rss[1]) {
            Err(k) => Err(k),
            Ok(_) => match prepared {
                Err(k) => Err(k),
                Ok(p) => match spec_decode(p, cfg.max_pixels) {
                    Err(k) => Err(k),
                    Ok(img) => match guard_verdict(cfg.memory_limit_bytes, baseline, rss[2]) {
                        Err(k) => Err(k),
                        Ok(_) => Ok(img),
                    },
                },
            },
        }
    }
}

/// What `convert` produces: the decoded image, resized to the first
/// configured resolution and encoded.
pub open spec fn spec_convert(
    cfg: Config,
    input: Seq<u8>,
    prepared: Result<Seq<u8>, ErrorKind>,
    rss: Seq<Option<u64>>,
    ycbcr: Seq<Seq<[u16; 3]>>,
) -> Result<Seq<u8>, ErrorKind> {
    match spec_validate_and_decode(cfg, input, prepared, rss) {
        Err(k) => Err(k),
        Ok(img) => spec_encode_at(cfg, img, convert_resolution(cfg), ycbcr[0]),
    }
}

/// The encodings of `uniq[k..]`, each preceded by two checks of the encode
/// guard (limit `limit`, baseline `baseline`): reading `rs[2j]` before
/// resizing and `rs[2j + 1]` before encoding `uniq[j]`. The first failure
/// ends the run.
pub open spec fn encode_from(
    cfg: Config,
    img: ImageView,
    uniq: Seq<OutputResolution>,
    limit: u64,
    baseline: u64,
    rs: Seq<Option<u64>>,
    ycbcr: Seq<Seq<[u16; 3]>>,
    k: int,
) -> Result<Seq<Seq<u8>>, ErrorKind>
    decreases uniq.len() - k,
{
    if k < 0 || k >= uniq.len() {
        Ok(seq![])
    } else {
        match guard_verdict(limit, baseline, rs[2 * k]) {
            Err(e) => Err(e),
            Ok(_) => match guard_verdict(limit, baseline, rs[2 * k + 1]) {
                Err(e) => Err(e),
                Ok(_) => match spec_encode_at(cfg, img, uniq[k], ycbcr[k]) {
                    Err(e) => Err(e),
                    Ok(b) => match encode_from(cfg, img, uniq, limit, baseline, rs, ycbcr, k + 1) {
                        Err(e) => Err(e),
                        Ok(rest) => Ok(seq![b] + rest),
                    },
                },
            },
        }
    }
}

/// The position of `r` in the duplicate-free `uniq`.
pub open spec fn slot_of(uniq: Seq<OutputResolution>, r: OutputResolution) -> int {
    choose|j: int| 0 <= j < uniq.len() && uniq[j] == r
}

/// The outputs in requested order: each requested resolution with the
/// encoding of its distinct resolution.
pub open spec fn assemble(
    req: Seq<OutputResolution>,
    uniq: Seq<OutputResolution>,
    datas: Seq<Seq<u8>>,
) -> Seq<(OutputResolution, Seq<u8>)> {
    Seq::new(req.len(), |i: int| (req[i], datas[slot_of(uniq, req[i])]))
}

/// What `convert_multi` produces: the image is decoded once (readings 0–2);
/// reading 3 is the baseline of the encode guard; each distinct requested
/// resolution is then resized and encoded (readings 4 + 2k and 5 + 2k), and
/// the outputs follow the requested order, repeated resolutions sharing
/// their bytes.
pub open spec fn spec_convert_multi(
    cfg: Config,
    input: Seq<u8>,
    prepared: Result<Seq<u8>, ErrorKind>,
    rss: Seq<Option<u64>>,
    ycbcr: Seq<Seq<[u16; 3]>>,
) -> Result<Seq<(OutputResolution, Seq<u8>)>, ErrorKind> {
    match spec_validate_and_decode(cfg, input, prepared, rss) {
        Err(k) => Err(k),
        Ok(img) => {
            let req = requested_resolutions(cfg);
            let uniq = dedup(req);
            match encode_from(
                cfg,
                img,
                uniq,
                cfg.memory_limit_bytes,
                baseline_of(rss[3]),
                rss.subrange(4, rss.len() as int),
                ycbcr,
                0,
            ) {
                Err(k) => Err(k),
                Ok(datas) => Ok(assemble(req, uniq, datas)),
            }
        },
    }
}

/// How many RSS readings `convert` takes: none for input over the byte cap;
/// two (baseline, check before decoding) when that check fails or the
/// metadata step or decoder fails; three (the check after decoding) otherwise.
pub open spec fn convert_readings(
    cfg: Config,
    input: Seq<u8>,
    prepared: Result<Seq<u8>, ErrorKind>,
    rss: Seq<Option<u64>>,
) -> int {
    if input.len() > cfg.max_input_bytes {
        0
    } else if guard_verdict(cfg.memory_limit_bytes, baseline_of(rss[0]), rss[1]) is Err {
        2
    } else {
        match prepared {
            Err(_) => 2,
            Ok(p) => match spec_decode(p, cfg.max_pixels) {
                Err(_) => 2,
                Ok(_) => 3,
            },
        }
    }
}

/// How many readings the encodings of `uniq[k..]` take (see [`encode_from`]):
/// two per resolution, up to and including the check or encoding that fails.
pub open spec fn encode_from_readings(
    cfg: Config,
    img: ImageView,
    uniq: Seq<OutputResolution>,
    limit: u64,
    baseline: u64,
    rs: Seq<Option<u64>>,
    ycbcr: Seq<Seq<[u16; 3]>>,
    k: int,
) -> int
    decreases uniq.len() - k,
{
    if k < 0 || k >= uniq.len() {
        0
    } else if guard_verdict(limit, baseline, rs[2 * k]) is Err {
        1
    } else if guard_verdict(limit, baseline, rs[2 * k + 1]) is Err {
        2
    } else if spec_encode_at(cfg, img, uniq[k], ycbcr[k]) is Err {
        2
    } else {
        2 + encode_from_readings(cfg, img, uniq, limit, baseline, rs, ycbcr, k + 1)
    }
}

/// How many RSS readings `convert_multi` takes: as `convert` up to decoding,
/// three when the check after decoding fails, else four (the encode guard's
/// baseline) plus those of the encodings.
pub open spec fn convert_multi_readings(
    cfg: Config,
    input: Seq<u8>,
    prepared: Result<Seq<u8>, ErrorKind>,
    rss: Seq<Option<u64>>,
    ycbcr: Seq<Seq<[u16; 3]>>,
) -> int {
    if convert_readings(cfg, input, prepared, rss) < 3 {
        convert_readings(cfg, input, prepared, rss)
    } else {
        match spec_validate_and_decode(cfg, input, prepared, rss) {
            Err(_) => 3,
            Ok(img) => 4 + encode_from_readings(
                cfg,
                img,
                dedup(requested_resolutions(cfg)),
                cfg.memory_limit_bytes,
                baseline_of(rss[3]),
                rss.subrange(4, rss.len() as int),
                ycbcr,
                0,
            ),
        }
    }
}

/// A single AVIF output of [`Converter::convert_multi`]: the requested
/// resolution and the encoded bytes.
#[derive(Debug)]
pub struct ConversionOutput {
    /// The resolution variant that produced this output.
    pub resolution: OutputResolution,
    /// The encoded AVIF bytes.
    pub data: Vec<u8>,
}

impl View for ConversionOutput {
    type V = (OutputResolution, Seq<u8>);

    open spec fn view(&self) -> (OutputResolution, Seq<u8>) {
        (self.resolution, self.data@)
    }
}

/// The outputs as values.
pub open spec fn outputs_view(outs: Seq<ConversionOutput>) -> Seq<(OutputResolution, Seq<u8>)> {
    Seq::new(outs.len(), |i: int| outs[i]@)
}

/// The main conversion entry point: holds a [`Config`].
pub struct Converter {
    config: Config,
}

impl From<Config> for Converter {
    /// The infallible counterpart of [`Converter::new`].
    fn from(config: Config) -> (r: Self)
        ensures
            r.spec_config() == config,
    {
        Converter { config }
    }
}

impl vstd::std_specs::convert::FromSpecImpl<Config> for Converter {
    open spec fn obeys_from_spec() -> bool {
        true
    }

    closed spec fn from_spec(config: Config) -> Self {
        Converter { config }
    }
}

/// The message of the input-size error for `len` bytes over a cap of
/// `limit` bytes.
pub open spec fn input_too_large_text(len: nat, limit: nat) -> Seq<char> {
    "input too large: "@ + decimal_text(len) + " bytes exceeds the "@ + decimal_text(limit)
        + "-byte limit"@
}

/// The message of the error for an input whose metadata cannot be stripped.
pub open spec fn strip_refused_text() -> Seq<char> {
    "EXIF stripping is not supported for this image format; use strip_exif(false) to convert without stripping metadata"@
}

/// What the messages of a conversion's errors say: an input over the byte
/// cap fails with `Decode` and the input-size message; with `strip_exif`
/// on, an input whose metadata cannot be stripped fails, if with
/// `UnsupportedFormat`, with the message that says so and names
/// `strip_exif(false)`.
pub open spec fn conversion_error_text_ok(cfg: Config, input: Seq<u8>, e: Error) -> bool {
    &&& input.len() > cfg.max_input_bytes ==> (e matches Error::Decode(m) && m@
        == input_too_large_text(input.len(), cfg.max_input_bytes as nat))
    &&& (cfg.strip_exif && strip_refused(input) && e is UnsupportedFormat) ==> message_text(&e)
        == strip_refused_text()
}

/// The message of the input-size error, written with `format!`. Claimed:
/// the text of `input_too_large_text`, as `format!` writes integers in
/// decimal.
#[verifier::external_body]
fn input_too_large_message(len: usize, limit: u64) -> (r: String)
    ensures
        r@ == input_too_large_text(len as nat, limit as nat),
{
    format!("input too large: {len} bytes exceeds the {limit}-byte limit")
}

impl Converter {
    /// The configuration this converter holds.
    pub closed spec fn spec_config(&self) -> Config {
        self.config
    }

    /// Create a converter from `config`. Always succeeds.
    pub fn new(config: Config) -> (r: Result<Self, Error>)
        ensures
            r matches Ok(c) && c.spec_config() == config,
    {
        Ok(Converter { config })
    }

    /// The configuration this converter was created with.
    pub fn config(&self) -> (r: &Config)
        ensures
            *r == self.spec_config(),
    {
        &self.config
    }

    /// The metadata step: with `strip_exif` off, `Ok(None)` (decode the input
    /// as it is); with it on, the stripped bytes, or `UnsupportedFormat` when
    /// the format is not one whose metadata can be stripped.
    fn prepare_input(&self, input: &[u8]) -> (r: Result<Option<Vec<u8>>, Error>)
        ensures
            is_prepared(
                self.config.strip_exif,
                input@,
                match r {
                    Ok(None) => Ok(input@),
                    Ok(Some(v)) => Ok(v@),
                    Err(e) => Err(e.kind()),
                },
            ),
            r matches Err(e) ==> e matches Error::UnsupportedFormat(m) && m@ == strip_refused_text(),
    {
        if !self.config.strip_exif {
            return Ok(None);
        }
        match strip_metadata(input) {
            Some(stripped) => Ok(Some(stripped)),
            None => Err(
                Error::UnsupportedFormat(
                    String::from_str(
                        "EXIF stripping is not supported for this image format; use strip_exif(false) to convert without stripping metadata",
                    ),
                ),
            ),
        }
    }

    /// Encode an image with the configured quality, speed and alpha quality
    /// and, for 16-bit samples, the YCbCr planes `ycbcr` of its pixels. An
    /// image without pixels cannot be encoded (`Error::Encode`).
    fn encode_raw(&self, raw: &RawImage, ycbcr: &[[u16; 3]]) -> (r: Result<Vec<u8>, Error>)
        requires
            raw.wf(),
            planes_are_10_bit(ycbcr@),
        ensures
            match r {
                Ok(v) => (raw.width > 0 && raw.height > 0) && spec_encode(
                    raw@,
                    self.config.quality,
                    self.config.speed,
                    self.config.alpha_quality,
                    ycbcr@,
                ) == Ok::<Seq<u8>, ErrorKind>(v@),
                Err(e) => if raw.width == 0 || raw.height == 0 {
                    e.kind() == ErrorKind::Encode
                } else {
                    spec_encode(
                        raw@,
                        self.config.quality,
                        self.config.speed,
                        self.config.alpha_quality,
                        ycbcr@,
                    ) == Err::<Seq<u8>, ErrorKind>(e.kind())
                },
            },
    {
        if raw.width == 0 || raw.height == 0 {
            return Err(Error::Encode("cannot encode an image without pixels".to_string()));
        }
        encode_avif(raw, self.config.quality, self.config.speed, self.config.alpha_quality, ycbcr)
    }
}

/// Whether `img` is an image with pixels and 16-bit samples.
fn takes_ycbcr(img: &RawImage) -> (r: bool)
    ensures
        r == needs_ycbcr(img@),
{
    img.width > 0 && img.height > 0 && match &img.pixels {
        Pixels::Rgba16(_) => true,
        Pixels::Rgba8(_) => false,
    }
}

/// Where a conversion stands: the checkpoint whose RSS reading it waits for.
#[derive(Debug, Clone, Copy, PartialEq, Eq, Structural)]
pub enum Stage {
    /// Waiting for the baseline of the decode guard.
    AwaitBaseline,
    /// Waiting for the check before metadata stripping and decoding.
    AwaitPreDecode,
    /// Waiting for the check after decoding.
    AwaitPostDecode,
    /// Waiting for the baseline of the encode guard (`convert_multi`).
    AwaitEncodeBaseline,
    /// Waiting for the check before resizing a resolution (`convert_multi`).
    AwaitPreResize,
    /// Waiting for the check before encoding a resolution (`convert_multi`).
    AwaitPreEncode,
    /// Waiting for the YCbCr planes of a 16-bit image before encoding it.
    AwaitPlanes,
    /// Done: the outcome is ready.
    Finished,
}

/// Prepend `pre` to the value of `r`, keeping an error as it is.
pub open spec fn prepend(pre: Seq<Seq<u8>>, r: Result<Seq<Seq<u8>>, ErrorKind>) -> Result<
    Seq<Seq<u8>>,
    ErrorKind,
> {
    match r {
        Ok(rest) => Ok(pre + rest),
        Err(e) => Err(e),
    }
}

/// The first `enc.len()` distinct resolutions passed both checks of the
/// encode guard (readings `rs[2j]` and `rs[2j + 1]`) and encoded to `enc`.
pub open spec fn encoded_prefix_ok(
    cfg: Config,
    img: ImageView,
    uniq: Seq<OutputResolution>,
    limit: u64,
    baseline: u64,
    rs: Seq<Option<u64>>,
    ycbcr: Seq<Seq<[u16; 3]>>,
    enc: Seq<Seq<u8>>,
) -> bool {
    &&& enc.len() <= uniq.len()
    &&& 2 * enc.len() <= rs.len()
    &&& forall|j: int|
        0 <= j < enc.len() ==> {
            &&& #[trigger] guard_verdict(limit, baseline, rs[2 * j]) is Ok
            &&& guard_verdict(limit, baseline, rs[2 * j + 1]) is Ok
            &&& spec_encode_at(cfg, img, uniq[j], ycbcr[j]) == Ok::<Seq<u8>, ErrorKind>(enc[j])
        }
}

/// Once the first distinct resolutions are encoded, the run over all of them
/// is those encodings followed by the run from the next one.
pub proof fn lemma_encode_from_prefix(
    cfg: Config,
    img: ImageView,
    uniq: Seq<OutputResolution>,
    limit: u64,
    baseline: u64,
    rs: Seq<Option<u64>>,
    ycbcr: Seq<Seq<[u16; 3]>>,
    enc: Seq<Seq<u8>>,
    i: int,
)
    requires
        encoded_prefix_ok(cfg, img, uniq, limit, baseline, rs, ycbcr, enc),
        0 <= i <= enc.len(),
    ensures
        encode_from(cfg, img, uniq, limit, baseline, rs, ycbcr, i) == prepend(
            enc.subrange(i, enc.len() as int),
            encode_from(cfg, img, uniq, limit, baseline, rs, ycbcr, enc.len() as int),
        ),
    decreases enc.len() - i,
{
    let n = enc.len() as int;
    let tail = encode_from(cfg, img, uniq, limit, baseline, rs, ycbcr, n);
    if i == n {
        assert(enc.subrange(n, n) =~= Seq::<Seq<u8>>::empty());
        match tail {
            Ok(rest) => assert(Seq::<Seq<u8>>::empty() + rest =~= rest),
            Err(_) => {},
        }
    } else {
        lemma_encode_from_prefix(cfg, img, uniq, limit, baseline, rs, ycbcr, enc, i + 1);
        assert(guard_verdict(limit, baseline, rs[2 * i]) is Ok);
        match tail {
            Ok(rest) => {
                assert(seq![enc[i]] + (enc.subrange(i + 1, n) + rest) =~= enc.subrange(i, n) + rest);
            },
            Err(_) => {},
        }
    }
}

/// Once the first distinct resolutions are encoded, the readings of the run
/// over all of them are two per encoded one plus those of the run from the
/// next one.
proof fn lemma_encode_readings_prefix(
    cfg: Config,
    img: ImageView,
    uniq: Seq<OutputResolution>,
    limit: u64,
    baseline: u64,
    rs: Seq<Option<u64>>,
    ycbcr: Seq<Seq<[u16; 3]>>,
    enc: Seq<Seq<u8>>,
    i: int,
)
    requires
        encoded_prefix_ok(cfg, img, uniq, limit, baseline, rs, ycbcr, enc),
        0 <= i <= enc.len(),
    ensures
        encode_from_readings(cfg, img, uniq, limit, baseline, rs, ycbcr, i) == 2 * (enc.len() - i)
            + encode_from_readings(cfg, img, uniq, limit, baseline, rs, ycbcr, enc.len() as int),
    decreases enc.len() - i,
{
    if i < enc.len() {
        lemma_encode_readings_prefix(cfg, img, uniq, limit, baseline, rs, ycbcr, enc, i + 1);
        assert(guard_verdict(limit, baseline, rs[2 * i]) is Ok);
    }
}

/// `dedup(s)` holds each element of `s` once, and nothing else.
pub proof fn lemma_dedup(s: Seq<OutputResolution>)
    ensures
        forall|x: OutputResolution| s.contains(x) <==> #[trigger] dedup(s).contains(x),
        forall|i: int, j: int|
            0 <= i < dedup(s).len() && 0 <= j < dedup(s).len() && i != j ==> dedup(s)[i] != dedup(
                s,
            )[j],
        s.len() > 0 ==> dedup(s).len() > 0,
        dedup(s).len() <= s.len(),
    decreases s.len(),
{
    if s.len() > 0 {
        let p = s.drop_last();
        let last = s.last();
        lemma_dedup(p);
        let d = dedup(p);
        let ds = dedup(s);
        assert(forall|k: int| 0 <= k < d.len() ==> ds[k] == d[k]);
        assert forall|x: OutputResolution| s.contains(x) <==> #[trigger] ds.contains(x) by {
            if s.contains(x) {
                let k = choose|k: int| 0 <= k < s.len() && s[k] == x;
                if k < s.len() - 1 {
                    assert(p[k] == x);
                    assert(p.contains(x));
                    assert(d.contains(x));
                    let m = choose|m: int| 0 <= m < d.len() && d[m] == x;
                    assert(ds[m] == x);
                } else {
                    if !d.contains(x) {
                        assert(ds[d.len() as int] == x);
                    } else {
                        let m = choose|m: int| 0 <= m < d.len() && d[m] == x;
                        assert(ds[m] == x);
                    }
                }
            }
            if ds.contains(x) {
                let k = choose|k: int| 0 <= k < ds.len() && ds[k] == x;
                if k < d.len() {
                    assert(d[k] == x);
                    assert(d.contains(x));
                    assert(p.contains(x));
                    let m = choose|m: int| 0 <= m < p.len() && p[m] == x;
                    assert(s[m] == x);
                } else {
                    assert(s[s.len() - 1] == x);
                }
            }
        }
        if !d.contains(last) {
            assert forall|i: int, j: int|
                0 <= i < ds.len() && 0 <= j < ds.len() && i != j implies ds[i] != ds[j] by {
                if i == d.len() {
                    assert(d[j] == ds[j]);
                } else if j == d.len() {
                    assert(d[i] == ds[i]);
                }
            }
        }
    }
}

/// The index of `x` in `v`, which holds it.
fn position_of(v: &Vec<OutputResolution>, x: OutputResolution) -> (j: usize)
    requires
        v@.contains(x),
    ensures
        j < v@.len(),
        v@[j as int] == x,
{
    let mut i: usize = 0;
    while i < v.len()
        invariant
            i <= v@.len(),
            v@.contains(x),
            forall|k: int| 0 <= k < i ==> v@[k] != x,
        decreases v@.len() - i,
    {
        if v[i] == x {
            return i;
        }
        i = i + 1;
    }
    proof {
        let k = choose|k: int| 0 <= k < v@.len() && v@[k] == x;
        assert(v@[k] != x);
    }
    0
}

/// Whether `v` holds `x`.
fn holds(v: &Vec<OutputResolution>, x: OutputResolution) -> (r: bool)
    ensures
        r == v@.contains(x),
{
    let mut i: usize = 0;
    while i < v.len()
        invariant
            i <= v@.len(),
            forall|k: int| 0 <= k < i ==> v@[k] != x,
        decreases v@.len() - i,
    {
        if v[i] == x {
            assert(v@[i as int] == x);
            return true;
        }
        i = i + 1;
    }
    false
}

/// The distinct resolutions of `req`, in order of first occurrence.
fn dedup_resolutions(req: &Vec<OutputResolution>) -> (r: Vec<OutputResolution>)
    ensures
        r@ == dedup(req@),
{
    let mut out: Vec<OutputResolution> = Vec::new();
    let mut i: usize = 0;
    while i < req.len()
        invariant
            i <= req@.len(),
            out@ == dedup(req@.subrange(0, i as int)),
        decreases req@.len() - i,
    {
        assert(req@.subrange(0, i + 1).drop_last() =~= req@.subrange(0, i as int));
        if !holds(&out, req[i]) {
            out.push(req[i]);
        }
        i = i + 1;
    }
    assert(req@.subrange(0, req@.len() as int) =~= req@);
    out
}

/// A copy of the resolution list.
fn copy_resolutions(v: &Vec<OutputResolution>) -> (r: Vec<OutputResolution>)
    ensures
        r@ == v@,
{
    let mut out: Vec<OutputResolution> = Vec::new();
    let mut i: usize = 0;
    while i < v.len()
        invariant
            i <= v@.len(),
            out@ == v@.subrange(0, i as int),
        decreases v@.len() - i,
    {
        out.push(v[i]);
        i = i + 1;
    }
    assert(out@ =~= v@);
    out
}

/// A copy of an image.
fn copy_image(img: &RawImage) -> (r: RawImage)
    ensures
        r@ == img@,
{
    let pixels = match &img.pixels {
        Pixels::Rgba8(px) => Pixels::Rgba8(copy_bytes(px.as_slice())),
        Pixels::Rgba16(px) => Pixels::Rgba16(vstd::slice::slice_to_vec(px.as_slice())),
    };
    RawImage { width: img.width, height: img.height, pixels }
}

/// The encodings of a list of byte vectors, as values.
pub open spec fn bytes_view(v: Seq<Vec<u8>>) -> Seq<Seq<u8>> {
    Seq::new(v.len(), |i: int| v[i]@)
}

/// A conversion in progress: [`Converter::convert`] or
/// [`Converter::convert_multi`] of one input.
///
/// While [`Conversion::is_finished`] is false, the caller reads the resident
/// set size and passes it to [`Conversion::resume`] (`None` where it cannot
/// be read). A finished conversion yields its outcome with
/// [`Conversion::into_avif`] or [`Conversion::into_outputs`].
pub struct Conversion<'a> {
    converter: &'a Converter,
    input: &'a [u8],
    multi: bool,
    requested: Vec<OutputResolution>,
    unique: Vec<OutputResolution>,
    stage: Stage,
    guard: MemoryGuard,
    image: Option<RawImage>,
    resized: Option<RawImage>,
    next: usize,
    encoded: Vec<Vec<u8>>,
    outcome: Option<Result<Vec<ConversionOutput>, Error>>,
    readings: Ghost<Seq<Option<u64>>>,
    prepared: Ghost<Result<Seq<u8>, ErrorKind>>,
    decoded: Ghost<ImageView>,
    ycbcr: Ghost<Seq<Seq<[u16; 3]>>>,
}

impl<'a> Conversion<'a> {
    /// The configuration of the converter.
    pub closed spec fn cfg(&self) -> Config {
        self.converter.spec_config()
    }

    /// The input bytes.
    pub closed spec fn input_bytes(&self) -> Seq<u8> {
        self.input@
    }

    /// Whether this is a `convert_multi` conversion.
    pub closed spec fn is_multi(&self) -> bool {
        self.multi
    }

    /// The RSS readings handed to `resume` so far, in order.
    pub closed spec fn readings(&self) -> Seq<Option<u64>> {
        self.readings@
    }

    /// What the metadata step handed (or would hand) to the decoder.
    pub closed spec fn prepared(&self) -> Result<Seq<u8>, ErrorKind> {
        self.prepared@
    }

    /// The YCbCr planes used by each encoding so far, in order: those
    /// handed to [`Conversion::supply_ycbcr`] for 16-bit images, none for
    /// the others.
    pub closed spec fn planes(&self) -> Seq<Seq<[u16; 3]>> {
        self.ycbcr@
    }

    /// Whether the conversion waits for the YCbCr planes of a 16-bit image.
    pub closed spec fn awaiting_planes(&self) -> bool {
        self.stage == Stage::AwaitPlanes
    }

    /// The image whose YCbCr planes the conversion waits for.
    pub closed spec fn planes_source(&self) -> ImageView {
        self.resized->Some_0@
    }

    /// Whether the outcome is ready.
    pub closed spec fn finished(&self) -> bool {
        self.stage == Stage::Finished
    }

    /// Most readings a conversion takes: 3 for `convert`; for
    /// `convert_multi`, 4 plus 2 per distinct requested resolution.
    pub open spec fn reading_budget(&self) -> nat {
        if self.is_multi() {
            (4 + 2 * dedup(requested_resolutions(self.cfg())).len()) as nat
        } else {
            3
        }
    }

    /// The outcome of a finished `convert`.
    pub closed spec fn single_outcome(&self) -> Result<Seq<u8>, ErrorKind> {
        match self.outcome {
            Some(Ok(outs)) => Ok(outs@[0].data@),
            Some(Err(e)) => Err(e.kind()),
            None => Err(ErrorKind::Internal),
        }
    }

    /// The outcome of a finished `convert_multi`.
    pub closed spec fn multi_outcome(&self) -> Result<Seq<(OutputResolution, Seq<u8>)>, ErrorKind> {
        match self.outcome {
            Some(Ok(outs)) => Ok(outputs_view(outs@)),
            Some(Err(e)) => Err(e.kind()),
            None => Err(ErrorKind::Internal),
        }
    }

    /// The decoded image held while encoding.
    closed spec fn image_ok(&self) -> bool {
        &&& self.image matches Some(img)
        &&& img.wf()
        &&& spec_validate_and_decode(self.cfg(), self.input@, self.prepared@, self.readings@)
            == Ok::<ImageView, ErrorKind>(img@)
    }

    /// The encode guard and the encodings done so far.
    closed spec fn encoding_ok(&self) -> bool {
        let r = self.readings@;
        &&& self.image matches Some(img)
        &&& self.next < self.unique@.len()
        &&& self.guard.made_from(self.cfg().memory_limit_bytes, r[3])
        &&& self.encoded@.len() == self.next
        &&& encoded_prefix_ok(
            self.cfg(),
            img@,
            self.unique@,
            self.cfg().memory_limit_bytes,
            baseline_of(r[3]),
            r.subrange(4, r.len() as int),
            self.ycbcr@,
            bytes_view(self.encoded@),
        )
    }

    /// Invariant of a conversion.
    pub closed spec fn wf(&self) -> bool {
        let cfg = self.cfg();
        let r = self.readings@;
        let lim = cfg.memory_limit_bytes;
        &&& is_prepared(cfg.strip_exif, self.input@, self.prepared@)
        &&& self.outcome matches Some(Err(e)) ==> conversion_error_text_ok(cfg, self.input@, e)
        &&& self.multi ==> self.requested@ == requested_resolutions(cfg) && self.unique@ == dedup(
            self.requested@,
        )
        &&& !self.multi ==> self.requested@ == seq![convert_resolution(cfg)] && self.unique@
            == self.requested@
        &&& self.stage != Stage::Finished ==> {
            &&& if self.stage == Stage::AwaitPlanes {
                r.len() <= self.reading_budget()
            } else {
                r.len() < self.reading_budget()
            }
            &&& self.input@.len() <= cfg.max_input_bytes
        }
        &&& match self.stage {
            Stage::AwaitBaseline => r.len() == 0 && self.ycbcr@.len() == 0,
            Stage::AwaitPreDecode => r.len() == 1 && self.guard.made_from(lim, r[0])
                && self.ycbcr@.len() == 0,
            Stage::AwaitPostDecode => {
                &&& r.len() == 2
                &&& self.guard.made_from(lim, r[0])
                &&& guard_verdict(lim, baseline_of(r[0]), r[1]) is Ok
                &&& self.prepared@ matches Ok(p)
                &&& self.image matches Some(img)
                &&& img.wf()
                &&& spec_decode(p, cfg.max_pixels) == Ok::<ImageView, ErrorKind>(img@)
                &&& self.decoded@ == img@
                &&& self.ycbcr@.len() == 0
            },
            Stage::AwaitEncodeBaseline => self.multi && r.len() == 3 && self.image_ok()
                && self.ycbcr@.len() == 0,
            Stage::AwaitPreResize => {
                &&& self.multi
                &&& r.len() == 4 + 2 * self.next
                &&& self.image_ok()
                &&& self.encoding_ok()
                &&& self.ycbcr@.len() == self.next
            },
            Stage::AwaitPreEncode => {
                &&& self.multi
                &&& r.len() == 5 + 2 * self.next
                &&& self.image_ok()
                &&& self.encoding_ok()
                &&& self.ycbcr@.len() == self.next
                &&& self.guard.spec_check(r[4 + 2 * self.next]) is Ok
                &&& self.image matches Some(img)
                &&& self.resized matches Some(rs)
                &&& rs.wf()
                &&& rs@ == spec_resize(img@, self.unique@[self.next as int])
            },
            Stage::AwaitPlanes => {
                &&& self.resized matches Some(rs)
                &&& rs.wf()
                &&& self.multi ==> {
                    &&& r.len() == 6 + 2 * self.next
                    &&& self.image_ok()
                    &&& self.encoding_ok()
                    &&& self.ycbcr@.len() == self.next
                    &&& self.guard.spec_check(r[4 + 2 * self.next]) is Ok
                    &&& self.guard.spec_check(r[5 + 2 * self.next]) is Ok
                    &&& self.image matches Some(img)
                    &&& rs@ == spec_resize(img@, self.unique@[self.next as int])
                }
                &&& !self.multi ==> {
                    &&& r.len() == 3
                    &&& self.ycbcr@.len() == 0
                    &&& spec_validate_and_decode(cfg, self.input@, self.prepared@, r) == Ok::<
                        ImageView,
                        ErrorKind,
                    >(self.decoded@)
                    &&& rs@ == spec_resize(self.decoded@, convert_resolution(cfg))
                }
            },
            Stage::Finished => {
                &&& self.outcome is Some
                &&& self.multi ==> r.len() == convert_multi_readings(
                    cfg,
                    self.input@,
                    self.prepared@,
                    r,
                    self.ycbcr@,
                )
                &&& !self.multi ==> r.len() == convert_readings(cfg, self.input@, self.prepared@, r)
                &&& self.multi ==> self.multi_outcome() == spec_convert_multi(
                    cfg,
                    self.input@,
                    self.prepared@,
                    r,
                    self.ycbcr@,
                )
                &&& !self.multi ==> {
                    &&& self.outcome matches Some(Ok(outs)) ==> outs@.len() == 1
                    &&& self.single_outcome() == spec_convert(
                        cfg,
                        self.input@,
                        self.prepared@,
                        r,
                        self.ycbcr@,
                    )
                }
            },
        }
    }

    /// Whether the outcome is ready.
    pub fn is_finished(&self) -> (r: bool)
        ensures
            r == self.finished(),
    {
        self.stage == Stage::Finished
    }

    /// End the conversion with `outcome`, after recording the reading `rss`.
    fn finish(&mut self, outcome: Result<Vec<ConversionOutput>, Error>)
        ensures
            final(self).stage == Stage::Finished,
            final(self).outcome == Some(outcome),
            final(self).converter == old(self).converter,
            final(self).input == old(self).input,
            final(self).multi == old(self).multi,
            final(self).requested == old(self).requested,
            final(self).unique == old(self).unique,
            final(self).readings == old(self).readings,
            final(self).prepared == old(self).prepared,
            final(self).ycbcr == old(self).ycbcr,
            final(self).decoded == old(self).decoded,
    {
        self.outcome = Some(outcome);
        self.stage = Stage::Finished;
    }

    /// Take the reading that sets the decode guard's baseline.
    fn step_baseline(&mut self, rss: Option<u64>)
        requires
            old(self).wf(),
            old(self).stage == Stage::AwaitBaseline,
        ensures
            final(self).wf(),
            final(self).readings() == old(self).readings().push(rss),
            final(self).converter == old(self).converter,
            final(self).input == old(self).input,
            final(self).multi == old(self).multi,
            old(self).planes().is_prefix_of(final(self).planes()),
    {
        self.guard = MemoryGuard::new(self.converter.config.memory_limit_bytes, rss);
        self.readings = Ghost(self.readings@.push(rss));
        self.stage = Stage::AwaitPreDecode;
    }

    /// Check the reading before decoding; strip metadata and decode.
    fn step_pre_decode(&mut self, rss: Option<u64>)
        requires
            old(self).wf(),
            old(self).stage == Stage::AwaitPreDecode,
        ensures
            final(self).wf(),
            final(self).readings() == old(self).readings().push(rss),
            final(self).converter == old(self).converter,
            final(self).input == old(self).input,
            final(self).multi == old(self).multi,
            old(self).planes().is_prefix_of(final(self).planes()),
    {
        self.readings = Ghost(self.readings@.push(rss));
        match self.guard.check(rss) {
            Err(e) => {
                self.finish(Err(e));
                return ;
            },
            Ok(()) => {},
        }
        let max_pixels = self.converter.config.max_pixels;
        match self.converter.prepare_input(self.input) {
            Err(e) => {
                self.prepared = Ghost(Err(e.kind()));
                self.finish(Err(e));
            },
            Ok(stripped) => {
                let decoded = match &stripped {
                    Some(v) => decode(v.as_slice(), max_pixels),
                    None => decode(self.input, max_pixels),
                };
                self.prepared = Ghost(
                    match stripped {
                        Some(v) => Ok(v@),
                        None => Ok(self.input@),
                    },
                );
                match decoded {
                    Err(e) => {
                        self.finish(Err(e));
                    },
                    Ok(img) => {
                        self.decoded = Ghost(img@);
                        self.image = Some(img);
                        self.stage = Stage::AwaitPostDecode;
                    },
                }
            },
        }
    }

    /// Check the reading after decoding. `convert` then resizes and encodes;
    /// `convert_multi` waits for the encode guard's baseline.
    fn step_post_decode(&mut self, rss: Option<u64>)
        requires
            old(self).wf(),
            old(self).stage == Stage::AwaitPostDecode,
        ensures
            final(self).wf(),
            final(self).readings() == old(self).readings().push(rss),
            final(self).converter == old(self).converter,
            final(self).input == old(self).input,
            final(self).multi == old(self).multi,
            old(self).planes().is_prefix_of(final(self).planes()),
    {
        self.readings = Ghost(self.readings@.push(rss));
        match self.guard.check(rss) {
            Err(e) => {
                self.finish(Err(e));
                return ;
            },
            Ok(()) => {},
        }
        if self.multi {
            self.stage = Stage::AwaitEncodeBaseline;
            return ;
        }
        let image = match self.image.take() {
            Some(img) => img,
            None => {
                proof {
                    assert(false);
                }
                return ;
            },
        };
        let resolution = self.requested[0];
        let resized = resize_raw_image(image, resolution);
        let wanted = takes_ycbcr(&resized);
        self.resized = Some(resized);
        self.stage = Stage::AwaitPlanes;
        if !wanted {
            self.encode_pending(&[]);
        }
    }

    /// Take the reading that sets the encode guard's baseline.
    fn step_encode_baseline(&mut self, rss: Option<u64>)
        requires
            old(self).wf(),
            old(self).stage == Stage::AwaitEncodeBaseline,
        ensures
            final(self).wf(),
            final(self).readings() == old(self).readings().push(rss),
            final(self).converter == old(self).converter,
            final(self).input == old(self).input,
            final(self).multi == old(self).multi,
            old(self).planes().is_prefix_of(final(self).planes()),
    {
        proof {
            lemma_dedup(self.requested@);
        }
        self.readings = Ghost(self.readings@.push(rss));
        self.guard = MemoryGuard::new(self.converter.config.memory_limit_bytes, rss);
        self.next = 0;
        self.encoded = Vec::new();
        self.stage = Stage::AwaitPreResize;
        proof {
            let r = self.readings@;
            assert(bytes_view(self.encoded@) =~= Seq::<Seq<u8>>::empty());
            assert(r.subrange(4, r.len() as int).len() == 0);
        }
    }

    /// Check the reading before resizing the next distinct resolution, and resize.
    fn step_pre_resize(&mut self, rss: Option<u64>)
        requires
            old(self).wf(),
            old(self).stage == Stage::AwaitPreResize,
        ensures
            final(self).wf(),
            final(self).readings() == old(self).readings().push(rss),
            final(self).converter == old(self).converter,
            final(self).input == old(self).input,
            final(self).multi == old(self).multi,
            old(self).planes().is_prefix_of(final(self).planes()),
    {
        let ghost old_rs = self.readings@.subrange(4, self.readings@.len() as int);
        self.readings = Ghost(self.readings@.push(rss));
        let ghost rs = self.readings@.subrange(4, self.readings@.len() as int);
        let ghost cfg = self.cfg();
        let ghost img = self.image->Some_0@;
        let ghost lim = cfg.memory_limit_bytes;
        let ghost base = baseline_of(self.readings@[3]);
        proof {
            lemma_prefix_extend(cfg, img, self.unique@, lim, base, old_rs, rs, self.ycbcr@, self.ycbcr@, bytes_view(self.encoded@));
        }
        match self.guard.check(rss) {
            Err(e) => {
                proof {
                    lemma_encode_from_prefix(cfg, img, self.unique@, lim, base, rs, self.ycbcr@, bytes_view(self.encoded@), 0);
                    lemma_encode_readings_prefix(cfg, img, self.unique@, lim, base, rs, self.ycbcr@, bytes_view(self.encoded@), 0);
                    assert(rs[2 * self.next as int] == rss);
                }
                self.finish(Err(e));
                return ;
            },
            Ok(()) => {},
        }
        let copy = match &self.image {
            Some(img) => copy_image(img),
            None => {
                proof {
                    assert(false);
                }
                return ;
            },
        };
        let resolution = self.unique[self.next];
        self.resized = Some(resize_raw_image(copy, resolution));
        self.stage = Stage::AwaitPreEncode;
    }

    /// Check the reading before encoding the next distinct resolution, and
    /// encode it; after the last one, assemble the outputs.
    fn step_pre_encode(&mut self, rss: Option<u64>)
        requires
            old(self).wf(),
            old(self).stage == Stage::AwaitPreEncode,
        ensures
            final(self).wf(),
            final(self).readings() == old(self).readings().push(rss),
            final(self).converter == old(self).converter,
            final(self).input == old(self).input,
            final(self).multi == old(self).multi,
            old(self).planes().is_prefix_of(final(self).planes()),
    {
        let ghost old_rs = self.readings@.subrange(4, self.readings@.len() as int);
        self.readings = Ghost(self.readings@.push(rss));
        let ghost rs = self.readings@.subrange(4, self.readings@.len() as int);
        let ghost cfg = self.cfg();
        let ghost img = self.image->Some_0@;
        let ghost lim = cfg.memory_limit_bytes;
        let ghost base = baseline_of(self.readings@[3]);
        let ghost k = self.next as int;
        let ghost yc = self.ycbcr@;
        proof {
            lemma_prefix_extend(cfg, img, self.unique@, lim, base, old_rs, rs, yc, yc, bytes_view(self.encoded@));
            assert(rs[2 * k] == old_rs[2 * k]);
            assert(rs[2 * k + 1] == rss);
        }
        match self.guard.check(rss) {
            Err(e) => {
                proof {
                    lemma_encode_from_prefix(cfg, img, self.unique@, lim, base, rs, yc, bytes_view(self.encoded@), 0);
                    lemma_encode_readings_prefix(cfg, img, self.unique@, lim, base, rs, yc, bytes_view(self.encoded@), 0);
                }
                self.finish(Err(e));
                return ;
            },
            Ok(()) => {},
        }
        let wanted = match &self.resized {
            Some(r) => takes_ycbcr(r),
            None => false,
        };
        proof {
            assert(self.readings@[4 + 2 * k] == old(self).readings@[4 + 2 * k]);
            assert(self.readings@[5 + 2 * k] == rss);
            assert(self.readings@.subrange(0, 3) =~= old(self).readings@.subrange(0, 3));
        }
        self.stage = Stage::AwaitPlanes;
        if !wanted {
            self.encode_pending(&[]);
        }
    }

    /// Encode the resized image held for the current resolution with the
    /// YCbCr planes `ycbcr` (not read for 8-bit samples), and go on: finish
    /// `convert`, or record the encoding of `convert_multi` and go to the
    /// next resolution or finish.
    fn encode_pending(&mut self, ycbcr: &[[u16; 3]])
        requires
            old(self).wf(),
            old(self).stage == Stage::AwaitPlanes,
            planes_are_10_bit(ycbcr@),
        ensures
            final(self).wf(),
            final(self).readings() == old(self).readings(),
            final(self).planes() == old(self).planes().push(ycbcr@),
            final(self).converter == old(self).converter,
            final(self).input == old(self).input,
            final(self).multi == old(self).multi,
            final(self).stage != Stage::AwaitPlanes,
    {
        let ghost old_yc = self.ycbcr@;
        self.ycbcr = Ghost(self.ycbcr@.push(ycbcr@));
        let ghost yc = self.ycbcr@;
        let ghost cfg = self.cfg();
        let resized = match self.resized.take() {
            Some(r) => r,
            None => {
                proof {
                    assert(false);
                }
                return ;
            },
        };
        let result = self.converter.encode_raw(&resized, ycbcr);
        if !self.multi {
            proof {
                assert(yc[0] == ycbcr@);
            }
            let resolution = self.requested[0];
            match result {
                Ok(data) => {
                    self.finish(Ok(vec![ConversionOutput { resolution, data }]));
                },
                Err(e) => {
                    self.finish(Err(e));
                },
            }
            return ;
        }
        let ghost rs = self.readings@.subrange(4, self.readings@.len() as int);
        let ghost img = self.image->Some_0@;
        let ghost lim = cfg.memory_limit_bytes;
        let ghost base = baseline_of(self.readings@[3]);
        let ghost k = self.next as int;
        proof {
            lemma_prefix_extend(cfg, img, self.unique@, lim, base, rs, rs, old_yc, yc, bytes_view(self.encoded@));
            assert(yc[k] == ycbcr@);
            assert(rs[2 * k] == self.readings@[4 + 2 * k]);
            assert(rs[2 * k + 1] == self.readings@[5 + 2 * k]);
        }
        match result {
            Err(e) => {
                proof {
                    lemma_encode_from_prefix(cfg, img, self.unique@, lim, base, rs, yc, bytes_view(self.encoded@), 0);
                    lemma_encode_readings_prefix(cfg, img, self.unique@, lim, base, rs, yc, bytes_view(self.encoded@), 0);
                }
                self.finish(Err(e));
            },
            Ok(data) => {
                let ghost old_enc = bytes_view(self.encoded@);
                let count = self.unique.len();
                assert(self.next < count);
                self.encoded.push(data);
                self.next = self.next + 1;
                proof {
                    let enc = bytes_view(self.encoded@);
                    assert(enc =~= old_enc.push(data@));
                    assert forall|j: int| 0 <= j < enc.len() implies {
                        &&& #[trigger] guard_verdict(lim, base, rs[2 * j]) is Ok
                        &&& guard_verdict(lim, base, rs[2 * j + 1]) is Ok
                        &&& spec_encode_at(cfg, img, self.unique@[j], yc[j]) == Ok::<Seq<u8>, ErrorKind>(enc[j])
                    } by {
                        if j < k {
                            assert(enc[j] == old_enc[j]);
                        }
                    }
                    assert(encoded_prefix_ok(cfg, img, self.unique@, lim, base, rs, yc, enc));
                }
                if self.next == self.unique.len() {
                    let outs = assemble_outputs(&self.requested, &self.unique, &self.encoded);
                    proof {
                        let enc = bytes_view(self.encoded@);
                        lemma_encode_from_prefix(cfg, img, self.unique@, lim, base, rs, yc, enc, 0);
                        lemma_encode_readings_prefix(cfg, img, self.unique@, lim, base, rs, yc, enc, 0);
                        assert(enc.subrange(0, enc.len() as int) =~= enc);
                        assert(enc + Seq::<Seq<u8>>::empty() =~= enc);
                    }
                    self.finish(Ok(outs));
                } else {
                    self.stage = Stage::AwaitPreResize;
                }
            },
        }
    }
}

impl<'a> Conversion<'a> {
    /// Hand the conversion the RSS reading it waits for (`None` where the
    /// resident set size cannot be read) and run it to its next checkpoint,
    /// or to its end.
    pub fn resume(&mut self, rss: Option<u64>)
        requires
            old(self).wf(),
            !old(self).finished(),
            !old(self).awaiting_planes(),
        ensures
            final(self).wf(),
            final(self).readings() == old(self).readings().push(rss),
            old(self).planes().is_prefix_of(final(self).planes()),
            final(self).cfg() == old(self).cfg(),
            final(self).input_bytes() == old(self).input_bytes(),
            final(self).is_multi() == old(self).is_multi(),
            final(self).readings().len() <= final(self).reading_budget(),
            final(self).finished() && !final(self).is_multi() ==> final(self).readings().len()
                == convert_readings(
                final(self).cfg(),
                final(self).input_bytes(),
                final(self).prepared(),
                final(self).readings(),
            ),
            final(self).finished() && final(self).is_multi() ==> final(self).readings().len()
                == convert_multi_readings(
                final(self).cfg(),
                final(self).input_bytes(),
                final(self).prepared(),
                final(self).readings(),
                final(self).planes(),
            ),
    {
        match self.stage {
            Stage::AwaitBaseline => self.step_baseline(rss),
            Stage::AwaitPreDecode => self.step_pre_decode(rss),
            Stage::AwaitPostDecode => self.step_post_decode(rss),
            Stage::AwaitEncodeBaseline => self.step_encode_baseline(rss),
            Stage::AwaitPreResize => self.step_pre_resize(rss),
            Stage::AwaitPreEncode => self.step_pre_encode(rss),
            Stage::AwaitPlanes => {},
            Stage::Finished => {},
        }
    }

    /// Whether the conversion waits for the YCbCr planes of a 16-bit image
    /// (see [`Conversion::ycbcr_request`]) rather than for an RSS reading.
    pub fn wants_ycbcr(&self) -> (r: bool)
        ensures
            r == self.awaiting_planes(),
    {
        self.stage == Stage::AwaitPlanes
    }

    /// The image whose 10-bit BT.601 YCbCr planes the conversion waits for,
    /// when it waits for them: the decoded image resized for the resolution
    /// being encoded.
    pub fn ycbcr_request(&self) -> (r: Option<&RawImage>)
        requires
            self.wf(),
        ensures
            r is Some <==> self.awaiting_planes(),
            r matches Some(img) ==> img.wf() && img@ == self.planes_source(),
    {
        if self.stage != Stage::AwaitPlanes {
            return None;
        }
        match &self.resized {
            Some(img) => Some(img),
            None => None,
        }
    }

    /// Hand the conversion the 10-bit YCbCr planes of the image it waits
    /// for, one `[Y, Cb, Cr]` per pixel, and run it to its next checkpoint,
    /// or to its end.
    pub fn supply_ycbcr(&mut self, planes: Vec<[u16; 3]>)
        requires
            old(self).wf(),
            old(self).awaiting_planes(),
            planes_are_10_bit(planes@),
        ensures
            final(self).wf(),
            final(self).readings() == old(self).readings(),
            final(self).planes() == old(self).planes().push(planes@),
            final(self).cfg() == old(self).cfg(),
            final(self).input_bytes() == old(self).input_bytes(),
            final(self).is_multi() == old(self).is_multi(),
            !final(self).awaiting_planes(),
            final(self).finished() && !final(self).is_multi() ==> final(self).readings().len()
                == convert_readings(
                final(self).cfg(),
                final(self).input_bytes(),
                final(self).prepared(),
                final(self).readings(),
            ),
            final(self).finished() && final(self).is_multi() ==> final(self).readings().len()
                == convert_multi_readings(
                final(self).cfg(),
                final(self).input_bytes(),
                final(self).prepared(),
                final(self).readings(),
                final(self).planes(),
            ),
    {
        self.encode_pending(planes.as_slice());
    }

    /// The AVIF bytes of a finished `convert`, or its error.
    pub fn into_avif(self) -> (r: Result<Vec<u8>, Error>)
        requires
            self.wf(),
            self.finished(),
            !self.is_multi(),
        ensures
            is_prepared(self.cfg().strip_exif, self.input_bytes(), self.prepared()),
            r matches Err(e) ==> conversion_error_text_ok(self.cfg(), self.input_bytes(), e),
            self.readings().len() == convert_readings(
                self.cfg(),
                self.input_bytes(),
                self.prepared(),
                self.readings(),
            ),
            match r {
                Ok(v) => spec_convert(
                    self.cfg(),
                    self.input_bytes(),
                    self.prepared(),
                    self.readings(),
                    self.planes(),
                ) == Ok::<Seq<u8>, ErrorKind>(v@),
                Err(e) => spec_convert(
                    self.cfg(),
                    self.input_bytes(),
                    self.prepared(),
                    self.readings(),
                    self.planes(),
                ) == Err::<Seq<u8>, ErrorKind>(e.kind()),
            },
    {
        let Conversion { outcome, .. } = self;
        match outcome {
            Some(Ok(mut outs)) => match outs.pop() {
                Some(out) => Ok(out.data),
                None => Err(Error::Internal("conversion produced no output".to_string())),
            },
            Some(Err(e)) => Err(e),
            None => Err(Error::Internal("conversion is not finished".to_string())),
        }
    }

    /// The outputs of a finished `convert_multi`, or its error.
    pub fn into_outputs(self) -> (r: Result<Vec<ConversionOutput>, Error>)
        requires
            self.wf(),
            self.finished(),
            self.is_multi(),
        ensures
            is_prepared(self.cfg().strip_exif, self.input_bytes(), self.prepared()),
            r matches Err(e) ==> conversion_error_text_ok(self.cfg(), self.input_bytes(), e),
            self.readings().len() == convert_multi_readings(
                self.cfg(),
                self.input_bytes(),
                self.prepared(),
                self.readings(),
                self.planes(),
            ),
            match r {
                Ok(outs) => spec_convert_multi(
                    self.cfg(),
                    self.input_bytes(),
                    self.prepared(),
                    self.readings(),
                    self.planes(),
                ) == Ok::<Seq<(OutputResolution, Seq<u8>)>, ErrorKind>(outputs_view(outs@)),
                Err(e) => spec_convert_multi(
                    self.cfg(),
                    self.input_bytes(),
                    self.prepared(),
                    self.readings(),
                    self.planes(),
                ) == Err::<Seq<(OutputResolution, Seq<u8>)>, ErrorKind>(e.kind()),
            },
    {
        let Conversion { outcome, .. } = self;
        match outcome {
            Some(r) => r,
            None => Err(Error::Internal("conversion is not finished".to_string())),
        }
    }
}

/// A metadata-step outcome that `is_prepared` accepts, used before the
/// step has run.
pub open spec fn presumed_prepared(strip: bool, input: Seq<u8>) -> Result<Seq<u8>, ErrorKind> {
    if !strip {
        Ok(input)
    } else if strip_refused(input) {
        Err(ErrorKind::UnsupportedFormat)
    } else {
        match spec_detect_format(input) {
            ImageFormat::Unknown => Err(ErrorKind::UnsupportedFormat),
            ImageFormat::Jpeg => match jpeg_read_segments(input) {
                Some(segments) => Ok(jpeg_written_bytes(kept_jpeg_segments(segments))),
                None => Ok(input),
            },
            ImageFormat::Png => match png_read_chunks(input) {
                Some(chunks) => Ok(png_file_bytes(kept_png_chunks(chunks))),
                None => Ok(input),
            },
            ImageFormat::WebP => match webp_read_chunks(input) {
                Some(chunks) => Ok(webp_file_bytes(kept_webp_chunks(chunks))),
                None => Ok(input),
            },
        }
    }
}

impl Converter {
    /// Start a conversion of `input` to AVIF at the first resolution of
    /// [`Config::output_resolutions`] (`Original` when the list is empty).
    ///
    /// Input over [`Config::max_input_bytes`] is rejected here, before any
    /// reading is asked for ([`Error::Decode`]). Otherwise the conversion
    /// asks for three RSS readings: the guard's baseline, and the checks
    /// before and after decoding.
    ///
    /// The finished conversion ([`Conversion::into_avif`]) fails with
    /// [`Error::Decode`] (input too large, unknown format, decoder failure),
    /// [`Error::InputTooLarge`] (over [`Config::max_pixels`]),
    /// [`Error::MemoryExceeded`], [`Error::Encode`] or
    /// [`Error::UnsupportedFormat`]; see [`spec_convert`].
    pub fn convert<'a>(&'a self, input: &'a [u8]) -> (c: Conversion<'a>)
        ensures
            c.wf(),
            !c.is_multi(),
            c.cfg() == self.spec_config(),
            c.input_bytes() == input@,
            c.readings() == Seq::<Option<u64>>::empty(),
            c.finished() <==> input@.len() > self.spec_config().max_input_bytes,
    {
        self.start(input, false)
    }

    /// Start a conversion of `input` that decodes once and encodes one AVIF
    /// per entry of [`Config::output_resolutions`] (`[Original]` when the
    /// list is empty), in that order. Repeated resolutions are encoded once
    /// and share their bytes.
    pub fn convert_multi<'a>(&'a self, input: &'a [u8]) -> (c: Conversion<'a>)
        ensures
            c.wf(),
            c.is_multi(),
            c.cfg() == self.spec_config(),
            c.input_bytes() == input@,
            c.readings() == Seq::<Option<u64>>::empty(),
            c.finished() <==> input@.len() > self.spec_config().max_input_bytes,
    {
        self.start(input, true)
    }

    fn start<'a>(&'a self, input: &'a [u8], multi: bool) -> (c: Conversion<'a>)
        ensures
            c.wf(),
            c.is_multi() == multi,
            c.cfg() == self.spec_config(),
            c.input_bytes() == input@,
            c.readings() == Seq::<Option<u64>>::empty(),
            c.finished() <==> input@.len() > self.spec_config().max_input_bytes,
    {
        let requested = if multi {
            if self.config.output_resolutions.len() == 0 {
                vec![OutputResolution::Original]
            } else {
                copy_resolutions(&self.config.output_resolutions)
            }
        } else {
            if self.config.output_resolutions.len() == 0 {
                vec![OutputResolution::Original]
            } else {
                vec![self.config.output_resolutions[0]]
            }
        };
        proof {
            if multi {
                assert(requested@ =~= requested_resolutions(self.config));
            } else {
                assert(requested@ =~= seq![convert_resolution(self.config)]);
            }
        }
        let unique = if multi {
            dedup_resolutions(&requested)
        } else {
            copy_resolutions(&requested)
        };
        proof {
            lemma_dedup(requested@);
        }
        let mut c = Conversion {
            converter: self,
            input,
            multi,
            requested,
            unique,
            stage: Stage::AwaitBaseline,
            guard: MemoryGuard::new(0, None),
            image: None,
            resized: None,
            next: 0,
            encoded: Vec::new(),
            outcome: None,
            readings: Ghost(Seq::empty()),
            prepared: Ghost(presumed_prepared(self.config.strip_exif, input@)),
            decoded: Ghost((0u32, 0u32, PixelData::Rgba8(Seq::empty()))),
            ycbcr: Ghost(Seq::empty()),
        };
        if input.len() as u64 > self.config.max_input_bytes {
            let message = input_too_large_message(input.len(), self.config.max_input_bytes);
            c.finish(Err(Error::Decode(message)));
        }
        c
    }
}

/// The outcome of one conversion: its bytes, or the kind of its error.
pub open spec fn avif_outcome(r: Result<Vec<u8>, Error>) -> Result<Seq<u8>, ErrorKind> {
    match r {
        Ok(v) => Ok(v@),
        Err(e) => Err(e.kind()),
    }
}

/// `convert` of several independent inputs, one after the other.
///
/// Like a [`Conversion`], it asks for RSS readings until
/// [`BatchConversion::is_finished`]; the readings go to the conversion of
/// the first unfinished input. [`BatchConversion::into_results`] yields one
/// result per input, in input order.
pub struct BatchConversion<'a> {
    converter: &'a Converter,
    inputs: &'a [&'a [u8]],
    current: Option<Conversion<'a>>,
    results: Vec<Result<Vec<u8>, Error>>,
    segments: Ghost<Seq<Seq<Option<u64>>>>,
    preps: Ghost<Seq<Result<Seq<u8>, ErrorKind>>>,
    plane_logs: Ghost<Seq<Seq<Seq<[u16; 3]>>>>,
}

impl<'a> BatchConversion<'a> {
    /// The configuration of the converter.
    pub closed spec fn cfg(&self) -> Config {
        self.converter.spec_config()
    }

    /// The inputs, as byte sequences.
    pub closed spec fn inputs_view(&self) -> Seq<Seq<u8>> {
        Seq::new(self.inputs@.len(), |i: int| self.inputs@[i]@)
    }

    /// The readings each finished input's conversion took.
    pub closed spec fn segments(&self) -> Seq<Seq<Option<u64>>> {
        self.segments@
    }

    /// What each finished input's metadata step handed to its decoder.
    pub closed spec fn preps(&self) -> Seq<Result<Seq<u8>, ErrorKind>> {
        self.preps@
    }

    /// The YCbCr planes each finished input's encoding used.
    pub closed spec fn plane_logs(&self) -> Seq<Seq<Seq<[u16; 3]>>> {
        self.plane_logs@
    }

    /// Whether the conversion under way waits for the YCbCr planes of a
    /// 16-bit image.
    pub closed spec fn awaiting_planes(&self) -> bool {
        self.current matches Some(c) && c.awaiting_planes()
    }

    /// Whether every input is converted.
    pub closed spec fn finished(&self) -> bool {
        self.current is None
    }

    /// The readings taken so far by the conversion under way (none when no
    /// conversion is under way).
    pub closed spec fn pending(&self) -> Seq<Option<u64>> {
        match self.current {
            Some(c) => c.readings(),
            None => Seq::empty(),
        }
    }

    /// Every reading the batch has been handed, in order: those of the
    /// finished conversions, then those of the conversion under way.
    pub closed spec fn readings(&self) -> Seq<Option<u64>> {
        self.segments@.flatten() + self.pending()
    }

    /// The first `k` inputs are converted, as `convert` converts them.
    closed spec fn done_ok(&self) -> bool {
        let k = self.results@.len();
        &&& k <= self.inputs@.len()
        &&& self.segments@.len() == k
        &&& self.preps@.len() == k
        &&& self.plane_logs@.len() == k
        &&& forall|i: int|
            0 <= i < k ==> {
                &&& is_prepared(self.cfg().strip_exif, self.inputs@[i]@, #[trigger] self.preps@[i])
                &&& avif_outcome(self.results@[i]) == spec_convert(
                    self.cfg(),
                    self.inputs@[i]@,
                    self.preps@[i],
                    self.segments@[i],
                    self.plane_logs@[i],
                )
                &&& self.segments@[i].len() == convert_readings(
                    self.cfg(),
                    self.inputs@[i]@,
                    self.preps@[i],
                    self.segments@[i],
                )
                &&& self.results@[i] matches Err(e) ==> conversion_error_text_ok(
                    self.cfg(),
                    self.inputs@[i]@,
                    e,
                )
            }
    }

    /// The conversion of the first unconverted input is under way.
    closed spec fn current_ok(&self) -> bool {
        let k = self.results@.len();
        &&& k < self.inputs@.len() ==> {
            &&& self.current matches Some(c)
            &&& c.wf()
            &&& !c.is_multi()
            &&& c.cfg() == self.cfg()
            &&& c.input_bytes() == self.inputs@[k as int]@
        }
        &&& k == self.inputs@.len() ==> self.current is None
    }

    /// Invariant of a batch.
    pub closed spec fn wf(&self) -> bool {
        &&& self.done_ok()
        &&& self.current_ok()
        &&& self.current matches Some(c) ==> !c.finished()
    }

    /// Whether every input is converted.
    pub fn is_finished(&self) -> (r: bool)
        ensures
            r == self.finished(),
    {
        self.current.is_none()
    }

    /// Collect the results of finished conversions and start the next ones,
    /// until one waits for a reading or all are done.
    fn settle(&mut self)
        requires
            old(self).done_ok(),
            old(self).current_ok(),
        ensures
            final(self).wf(),
            final(self).converter == old(self).converter,
            final(self).inputs == old(self).inputs,
            old(self).segments@.is_prefix_of(final(self).segments@),
            final(self).readings() == old(self).readings(),
    {
        loop
            invariant
                self.done_ok(),
                self.current_ok(),
                self.converter == old(self).converter,
                self.inputs == old(self).inputs,
                old(self).segments@.is_prefix_of(self.segments@),
                self.readings() == old(self).readings(),
            ensures
                self.done_ok(),
                self.current_ok(),
                self.converter == old(self).converter,
                self.inputs == old(self).inputs,
                old(self).segments@.is_prefix_of(self.segments@),
                self.readings() == old(self).readings(),
                self.current matches Some(c) ==> !c.finished(),
            decreases self.inputs@.len() - self.results@.len(),
        {
            let done = match &self.current {
                Some(c) => c.is_finished(),
                None => break,
            };
            if !done {
                break;
            }
            let c = match self.current.take() {
                Some(c) => c,
                None => break,
            };
            let ghost seg = c.readings();
            let ghost prep = c.prepared();
            let ghost planes = c.planes();
            let ghost before = self.segments@.flatten() + seg;
            let r = c.into_avif();
            let ghost old_segments = self.segments@;
            self.results.push(r);
            self.segments = Ghost(self.segments@.push(seg));
            self.preps = Ghost(self.preps@.push(prep));
            self.plane_logs = Ghost(self.plane_logs@.push(planes));
            proof {
                assert(old_segments.is_prefix_of(self.segments@));
                assert(old(self).segments@.is_prefix_of(self.segments@)) by {
                    assert(forall|i: int|
                        0 <= i < old(self).segments@.len() ==> self.segments@[i] == old_segments[i]);
                }
            }
            proof {
                broadcast use Seq::lemma_flatten_push;

                assert(self.segments@.flatten() =~= before);
            }
            let k = self.results.len();
            if k < self.inputs.len() {
                self.current = Some(self.converter.convert(self.inputs[k]));
            }
            assert(self.readings() =~= before);
        }
    }

    /// Hand the reading to the conversion under way, and go on to the next
    /// inputs as conversions finish.
    pub fn resume(&mut self, rss: Option<u64>)
        requires
            old(self).wf(),
            !old(self).finished(),
            !old(self).awaiting_planes(),
        ensures
            final(self).wf(),
            final(self).cfg() == old(self).cfg(),
            final(self).inputs_view() == old(self).inputs_view(),
            old(self).segments().is_prefix_of(final(self).segments()),
            final(self).readings() == old(self).readings().push(rss),
    {
        let ghost before = self.readings();
        let mut c = match self.current.take() {
            Some(c) => c,
            None => {
                return ;
            },
        };
        c.resume(rss);
        self.current = Some(c);
        assert(self.readings() =~= before.push(rss));
        self.settle();
    }

    /// Whether the conversion under way waits for the YCbCr planes of a
    /// 16-bit image (see [`BatchConversion::ycbcr_request`]) rather than
    /// for an RSS reading.
    pub fn wants_ycbcr(&self) -> (r: bool)
        ensures
            r == self.awaiting_planes(),
    {
        match &self.current {
            Some(c) => c.wants_ycbcr(),
            None => false,
        }
    }

    /// The image whose 10-bit BT.601 YCbCr planes the conversion under way
    /// waits for, when it waits for them.
    pub fn ycbcr_request(&self) -> (r: Option<&RawImage>)
        requires
            self.wf(),
        ensures
            r is Some <==> self.awaiting_planes(),
            r matches Some(img) ==> img.wf(),
    {
        match &self.current {
            Some(c) => c.ycbcr_request(),
            None => None,
        }
    }

    /// Hand the conversion under way the YCbCr planes it waits for, one
    /// `[Y, Cb, Cr]` per pixel, and go on to the next inputs as conversions
    /// finish.
    pub fn supply_ycbcr(&mut self, planes: Vec<[u16; 3]>)
        requires
            old(self).wf(),
            old(self).awaiting_planes(),
            planes_are_10_bit(planes@),
        ensures
            final(self).wf(),
            final(self).cfg() == old(self).cfg(),
            final(self).inputs_view() == old(self).inputs_view(),
            old(self).segments().is_prefix_of(final(self).segments()),
            final(self).readings() == old(self).readings(),
    {
        let ghost before = self.readings();
        let mut c = match self.current.take() {
            Some(c) => c,
            None => {
                return ;
            },
        };
        c.supply_ycbcr(planes);
        self.current = Some(c);
        assert(self.readings() =~= before);
        self.settle();
    }

    /// One result per input, in input order.
    pub fn into_results(self) -> (r: Vec<Result<Vec<u8>, Error>>)
        requires
            self.wf(),
            self.finished(),
        ensures
            r@.len() == self.inputs_view().len(),
            forall|i: int|
                0 <= i < r@.len() ==> {
                    &&& is_prepared(self.cfg().strip_exif, self.inputs_view()[i], #[trigger] self.preps()[i])
                    &&& avif_outcome(r@[i]) == spec_convert(
                        self.cfg(),
                        self.inputs_view()[i],
                        self.preps()[i],
                        self.segments()[i],
                        self.plane_logs()[i],
                    )
                    &&& self.segments()[i].len() == convert_readings(
                        self.cfg(),
                        self.inputs_view()[i],
                        self.preps()[i],
                        self.segments()[i],
                    )
                    &&& r@[i] matches Err(e) ==> conversion_error_text_ok(
                        self.cfg(),
                        self.inputs_view()[i],
                        e,
                    )
                },
    {
        let BatchConversion { results, .. } = self;
        results
    }
}

impl Converter {
    /// Start converting several independent inputs, each as
    /// [`Converter::convert`] converts it, one after the other.
    pub fn convert_batch<'a>(&'a self, inputs: &'a [&'a [u8]]) -> (b: BatchConversion<'a>)
        ensures
            b.wf(),
            b.cfg() == self.spec_config(),
            b.inputs_view().len() == inputs@.len(),
            forall|i: int| 0 <= i < inputs@.len() ==> b.inputs_view()[i] == inputs@[i]@,
    {
        let current = if inputs.len() > 0 {
            Some(self.convert(inputs[0]))
        } else {
            None
        };
        let mut b = BatchConversion {
            converter: self,
            inputs,
            current,
            results: Vec::new(),
            segments: Ghost(Seq::empty()),
            preps: Ghost(Seq::empty()),
            plane_logs: Ghost(Seq::empty()),
        };
        b.settle();
        b
    }
}

/// Input over the byte cap is rejected with `Decode` before any reading,
/// metadata step or decoder matters.
pub proof fn lemma_oversized_input_rejected(
    cfg: Config,
    input: Seq<u8>,
    prepared: Result<Seq<u8>, ErrorKind>,
    rss: Seq<Option<u64>>,
    ycbcr: Seq<Seq<[u16; 3]>>,
)
    requires
        input.len() > cfg.max_input_bytes,
    ensures
        spec_convert(cfg, input, prepared, rss, ycbcr) == Err::<Seq<u8>, ErrorKind>(ErrorKind::Decode),
        spec_convert_multi(cfg, input, prepared, rss, ycbcr) == Err::<
            Seq<(OutputResolution, Seq<u8>)>,
            ErrorKind,
        >(ErrorKind::Decode),
{
}

/// An image that gets past decoding came from input within the byte cap,
/// and its pixel count is within the pixel cap.
pub proof fn lemma_decoded_image_within_caps(
    cfg: Config,
    input: Seq<u8>,
    prepared: Result<Seq<u8>, ErrorKind>,
    rss: Seq<Option<u64>>,
)
    ensures
        spec_validate_and_decode(cfg, input, prepared, rss) matches Ok(img) ==> {
            &&& input.len() <= cfg.max_input_bytes
            &&& img.0 as int * img.1 as int <= cfg.max_pixels
        },
{
}

/// With `strip_exif` off the metadata step hands the input to the decoder
/// unchanged, whatever its format.
pub proof fn lemma_no_strip_passes_input(input: Seq<u8>, prepared: Result<Seq<u8>, ErrorKind>)
    requires
        is_prepared(false, input, prepared),
    ensures
        prepared == Ok::<Seq<u8>, ErrorKind>(input),
{
}

/// With `strip_exif` on, an input whose format cannot be stripped of
/// metadata (not JPEG, PNG or WebP) ends in `UnsupportedFormat` once it
/// passes the size cap and the memory check before decoding, rather than
/// going on with its metadata.
pub proof fn lemma_unstrippable_format_rejected(
    cfg: Config,
    input: Seq<u8>,
    prepared: Result<Seq<u8>, ErrorKind>,
    rss: Seq<Option<u64>>,
    ycbcr: Seq<Seq<[u16; 3]>>,
)
    requires
        cfg.strip_exif,
        is_prepared(cfg.strip_exif, input, prepared),
        spec_detect_format(input) == ImageFormat::Unknown,
        input.len() <= cfg.max_input_bytes,
        guard_verdict(cfg.memory_limit_bytes, baseline_of(rss[0]), rss[1]) is Ok,
    ensures
        spec_convert(cfg, input, prepared, rss, ycbcr) == Err::<Seq<u8>, ErrorKind>(
            ErrorKind::UnsupportedFormat,
        ),
{
}

/// Where no reading is available (every reading `None`), the memory guard
/// never stops a conversion: the outcome is that of the size check,
/// metadata step, decoder and encoder alone.
pub proof fn lemma_unreadable_rss_fails_open(
    cfg: Config,
    input: Seq<u8>,
    prepared: Result<Seq<u8>, ErrorKind>,
    rss: Seq<Option<u64>>,
    ycbcr: Seq<Seq<[u16; 3]>>,
)
    requires
        forall|i: int| 0 <= i < rss.len() ==> rss[i] is None,
        rss.len() == convert_readings(cfg, input, prepared, rss),
    ensures
        spec_convert(cfg, input, prepared, rss, ycbcr) == if input.len() > cfg.max_input_bytes {
            Err(ErrorKind::Decode)
        } else {
            match prepared {
                Err(k) => Err(k),
                Ok(p) => match spec_decode(p, cfg.max_pixels) {
                    Err(k) => Err(k),
                    Ok(img) => spec_encode_at(cfg, img, convert_resolution(cfg), ycbcr[0]),
                },
            }
        },
{
    if input.len() <= cfg.max_input_bytes {
        assert(rss.len() >= 2);
        assert(rss[0] is None);
        assert(rss[1] is None);
        if let Ok(p) = prepared {
            if spec_decode(p, cfg.max_pixels) is Ok {
                assert(rss.len() == 3);
                assert(rss[2] is None);
            }
        }
    }
}

/// With every encode guard passing, the run over `uniq[k..]` fails exactly
/// when one of those resolutions fails to encode.
proof fn lemma_encode_from_fails_iff(
    cfg: Config,
    img: ImageView,
    uniq: Seq<OutputResolution>,
    limit: u64,
    baseline: u64,
    rs: Seq<Option<u64>>,
    ycbcr: Seq<Seq<[u16; 3]>>,
    k: int,
)
    requires
        0 <= k <= uniq.len(),
        rs.len() >= 2 * uniq.len(),
        forall|i: int| 0 <= i < rs.len() ==> #[trigger] guard_verdict(limit, baseline, rs[i]) is Ok,
    ensures
        encode_from(cfg, img, uniq, limit, baseline, rs, ycbcr, k) is Err <==> exists|j: int|
            k <= j < uniq.len() && (#[trigger] spec_encode_at(cfg, img, uniq[j], ycbcr[j])) is Err,
    decreases uniq.len() - k,
{
    if k < uniq.len() {
        lemma_encode_from_fails_iff(cfg, img, uniq, limit, baseline, rs, ycbcr, k + 1);
        assert(guard_verdict(limit, baseline, rs[2 * k]) is Ok);
        assert(guard_verdict(limit, baseline, rs[2 * k + 1]) is Ok);
        if spec_encode_at(cfg, img, uniq[k], ycbcr[k]) is Err {
            assert(k <= k < uniq.len() && spec_encode_at(cfg, img, uniq[k], ycbcr[k]) is Err);
        }
    }
}

/// Where no reading of the encoding steps stops it (each is unknown, or
/// shows a growth over the encode guard's baseline below the limit; with an
/// unlimited budget, any reading short of `u64::MAX` bytes of growth),
/// `convert_multi` fails exactly when `convert` fails for one of the
/// requested resolutions: run with the same input and readings 0–2, with a
/// configuration that differs only in asking for that resolution alone
/// (`single_cfgs[c]` for the `c`-th distinct one), and given the YCbCr
/// planes supplied for it.
pub proof fn lemma_multi_fails_iff_some_single_fails(
    cfg: Config,
    single_cfgs: Seq<Config>,
    input: Seq<u8>,
    prepared: Result<Seq<u8>, ErrorKind>,
    rss: Seq<Option<u64>>,
    ycbcr: Seq<Seq<[u16; 3]>>,
)
    requires
        rss.len() >= 4 + 2 * dedup(requested_resolutions(cfg)).len(),
        forall|i: int|
            4 <= i < rss.len() ==> #[trigger] guard_verdict(
                cfg.memory_limit_bytes,
                baseline_of(rss[3]),
                rss[i],
            ) is Ok,
        single_cfgs.len() == dedup(requested_resolutions(cfg)).len(),
        forall|c: int|
            0 <= c < single_cfgs.len() ==> (#[trigger] single_cfgs[c]).scalars() == cfg.scalars()
                && convert_resolution(single_cfgs[c]) == dedup(requested_resolutions(cfg))[c],
    ensures
        spec_convert_multi(cfg, input, prepared, rss, ycbcr) is Err <==> exists|c: int|
            0 <= c < single_cfgs.len() && (#[trigger] spec_convert(
                single_cfgs[c],
                input,
                prepared,
                rss,
                seq![ycbcr[c]],
            )) is Err,
{
    let req = requested_resolutions(cfg);
    let uniq = dedup(req);
    lemma_dedup(req);
    assert(req.contains(req[0]));
    assert(uniq.contains(req[0]));
    assert(uniq.len() > 0);
    assert(single_cfgs[0].scalars() == cfg.scalars());
    assert forall|c: int| 0 <= c < single_cfgs.len() implies spec_validate_and_decode(
        #[trigger] single_cfgs[c],
        input,
        prepared,
        rss,
    ) == spec_validate_and_decode(cfg, input, prepared, rss) by {
        assert(single_cfgs[c].scalars() == cfg.scalars());
    }
    match spec_validate_and_decode(cfg, input, prepared, rss) {
        Err(_) => {
            assert(spec_convert(single_cfgs[0], input, prepared, rss, seq![ycbcr[0]]) is Err);
        },
        Ok(img) => {
            let rs = rss.subrange(4, rss.len() as int);
            let base = baseline_of(rss[3]);
            assert forall|i: int| 0 <= i < rs.len() implies #[trigger] guard_verdict(
                cfg.memory_limit_bytes,
                base,
                rs[i],
            ) is Ok by {
                assert(rs[i] == rss[i + 4]);
            }
            lemma_encode_from_fails_iff(cfg, img, uniq, cfg.memory_limit_bytes, base, rs, ycbcr, 0);
            assert forall|c: int| 0 <= c < single_cfgs.len() implies (#[trigger] spec_convert(
                single_cfgs[c],
                input,
                prepared,
                rss,
                seq![ycbcr[c]],
            )) == spec_encode_at(cfg, img, uniq[c], ycbcr[c]) by {
                let sc = single_cfgs[c];
                assert(sc.scalars() == cfg.scalars());
                assert(sc.quality == cfg.quality && sc.speed == cfg.speed && sc.alpha_quality
                    == cfg.alpha_quality);
                assert(seq![ycbcr[c]][0] == ycbcr[c]);
            }
            if spec_convert_multi(cfg, input, prepared, rss, ycbcr) is Err {
                let j = choose|j: int|
                    0 <= j < uniq.len() && (#[trigger] spec_encode_at(cfg, img, uniq[j], ycbcr[j])) is Err;
                assert(spec_convert(single_cfgs[j], input, prepared, rss, seq![ycbcr[j]]) is Err);
            }
        },
    }
}

/// `convert_multi` keeps the requested order and count: one output per
/// requested resolution, the i-th for the i-th resolution; a repeated
/// resolution yields the same bytes each time; and each output holds the
/// bytes that `convert` produces from the same input and readings 0–2 with
/// a configuration that differs only in asking for that resolution alone,
/// given the YCbCr planes supplied for it.
pub proof fn lemma_multi_matches_single(
    cfg: Config,
    single_cfg: Config,
    input: Seq<u8>,
    prepared: Result<Seq<u8>, ErrorKind>,
    rss: Seq<Option<u64>>,
    ycbcr: Seq<Seq<[u16; 3]>>,
    single_ycbcr: Seq<Seq<[u16; 3]>>,
    i: int,
    j: int,
)
    requires
        spec_convert_multi(cfg, input, prepared, rss, ycbcr) is Ok,
        0 <= i < requested_resolutions(cfg).len(),
        0 <= j < requested_resolutions(cfg).len(),
        single_cfg.scalars() == cfg.scalars(),
        convert_resolution(single_cfg) == requested_resolutions(cfg)[i],
        single_ycbcr[0] == ycbcr[slot_of(
            dedup(requested_resolutions(cfg)),
            requested_resolutions(cfg)[i],
        )],
    ensures
        ({
            let outs = spec_convert_multi(cfg, input, prepared, rss, ycbcr)->Ok_0;
            let req = requested_resolutions(cfg);
            &&& outs.len() == req.len()
            &&& outs[i].0 == req[i]
            &&& req[i] == req[j] ==> outs[i].1 == outs[j].1
            &&& spec_convert(single_cfg, input, prepared, rss, single_ycbcr) == Ok::<
                Seq<u8>,
                ErrorKind,
            >(outs[i].1)
        }),
{
    let req = requested_resolutions(cfg);
    let uniq = dedup(req);
    lemma_dedup(req);
    let img = spec_validate_and_decode(cfg, input, prepared, rss)->Ok_0;
    let rs = rss.subrange(4, rss.len() as int);
    let base = baseline_of(rss[3]);
    let lim = cfg.memory_limit_bytes;
    let datas = encode_from(cfg, img, uniq, lim, base, rs, ycbcr, 0)->Ok_0;
    lemma_encode_from_all(cfg, img, uniq, lim, base, rs, ycbcr, 0);
    assert(req.contains(req[i]));
    assert(uniq.contains(req[i]));
    let c = slot_of(uniq, req[i]);
    assert(0 <= c < uniq.len() && uniq[c] == req[i]);
    assert(spec_validate_and_decode(single_cfg, input, prepared, rss) == spec_validate_and_decode(
        cfg,
        input,
        prepared,
        rss,
    ));
    assert(single_cfg.quality == cfg.quality && single_cfg.speed == cfg.speed
        && single_cfg.alpha_quality == cfg.alpha_quality);
    assert(spec_encode_at(single_cfg, img, req[i], ycbcr[c]) == spec_encode_at(cfg, img, req[i], ycbcr[c]));
    assert(spec_encode_at(cfg, img, uniq[c], ycbcr[c]) == Ok::<Seq<u8>, ErrorKind>(datas[c]));
    assert(assemble(req, uniq, datas)[i] == (req[i], datas[c]));
}

/// `convert` reads only the first configured resolution, or `Original`
/// when none is configured: a configuration that asks for that resolution
/// alone, with the same other settings, takes the same readings and gives
/// the same outcome.
pub proof fn lemma_convert_uses_first_resolution(
    cfg: Config,
    first_only: Config,
    input: Seq<u8>,
    prepared: Result<Seq<u8>, ErrorKind>,
    rss: Seq<Option<u64>>,
    ycbcr: Seq<Seq<[u16; 3]>>,
)
    requires
        first_only.scalars() == cfg.scalars(),
        first_only.output_resolutions@ == seq![convert_resolution(cfg)],
    ensures
        spec_convert(first_only, input, prepared, rss, ycbcr) == spec_convert(
            cfg,
            input,
            prepared,
            rss,
            ycbcr,
        ),
        convert_readings(first_only, input, prepared, rss) == convert_readings(
            cfg,
            input,
            prepared,
            rss,
        ),
        is_prepared(first_only.strip_exif, input, prepared) == is_prepared(
            cfg.strip_exif,
            input,
            prepared,
        ),
{
    assert(convert_resolution(first_only) == convert_resolution(cfg));
    assert(spec_validate_and_decode(first_only, input, prepared, rss) == spec_validate_and_decode(
        cfg,
        input,
        prepared,
        rss,
    ));
}

/// A failure before or at decoding (input size, memory check, metadata
/// step, decoder, pixel cap) is the outcome of `convert_multi` as it is of
/// `convert`, with the same kind, whatever resolutions are configured; the
/// run then takes no reading for resizing or encoding.
pub proof fn lemma_decode_error_propagates(
    cfg: Config,
    input: Seq<u8>,
    prepared: Result<Seq<u8>, ErrorKind>,
    rss: Seq<Option<u64>>,
    ycbcr: Seq<Seq<[u16; 3]>>,
)
    requires
        spec_validate_and_decode(cfg, input, prepared, rss) is Err,
    ensures
        ({
            let k = spec_validate_and_decode(cfg, input, prepared, rss)->Err_0;
            &&& spec_convert_multi(cfg, input, prepared, rss, ycbcr) == Err::<
                Seq<(OutputResolution, Seq<u8>)>,
                ErrorKind,
            >(k)
            &&& spec_convert(cfg, input, prepared, rss, ycbcr) == Err::<Seq<u8>, ErrorKind>(k)
            &&& convert_multi_readings(cfg, input, prepared, rss, ycbcr) <= 3
        }),
{
}

/// `convert` resizes to the first entry of the configured resolution list
/// (`Original` when the list is empty) and encodes with the configured
/// quality, speed and alpha quality: when decoding succeeds, its outcome is
/// the encoding of the image resized for `output_resolutions[0]`, or an
/// encode error for an image left without pixels; when it fails, that error.
pub proof fn lemma_convert_encodes_at_first_configured_resolution(
    cfg: Config,
    input: Seq<u8>,
    prepared: Result<Seq<u8>, ErrorKind>,
    rss: Seq<Option<u64>>,
    ycbcr: Seq<Seq<[u16; 3]>>,
)
    ensures
        spec_convert(cfg, input, prepared, rss, ycbcr) == match spec_validate_and_decode(
            cfg,
            input,
            prepared,
            rss,
        ) {
            Err(k) => Err(k),
            Ok(img) => {
                let res = if cfg.output_resolutions@.len() > 0 {
                    cfg.output_resolutions@[0]
                } else {
                    OutputResolution::Original
                };
                let r = spec_resize(img, res);
                if r.0 == 0 || r.1 == 0 {
                    Err(ErrorKind::Encode)
                } else {
                    spec_encode(r, cfg.quality, cfg.speed, cfg.alpha_quality, ycbcr[0])
                }
            },
        },
{
}

/// `convert_multi` gives one output per configured resolution, in the
/// configured order and labelled with it (a single `Original` output when
/// the list is empty); each holds the encoding of the image resized for
/// that resolution.
pub proof fn lemma_multi_outputs_follow_configured_list(
    cfg: Config,
    input: Seq<u8>,
    prepared: Result<Seq<u8>, ErrorKind>,
    rss: Seq<Option<u64>>,
    ycbcr: Seq<Seq<[u16; 3]>>,
    i: int,
)
    requires
        spec_convert_multi(cfg, input, prepared, rss, ycbcr) is Ok,
        0 <= i < (if cfg.output_resolutions@.len() == 0 {
            1
        } else {
            cfg.output_resolutions@.len() as int
        }),
    ensures
        cfg.output_resolutions@.len() > 0 ==> spec_convert_multi(cfg, input, prepared, rss, ycbcr)->Ok_0.len()
            == cfg.output_resolutions@.len(),
        cfg.output_resolutions@.len() == 0 ==> spec_convert_multi(cfg, input, prepared, rss, ycbcr)->Ok_0.len()
            == 1,
        cfg.output_resolutions@.len() > 0 ==> spec_convert_multi(cfg, input, prepared, rss, ycbcr)->Ok_0[i].0
            == cfg.output_resolutions@[i],
        cfg.output_resolutions@.len() == 0 ==> spec_convert_multi(cfg, input, prepared, rss, ycbcr)->Ok_0[i].0
            == OutputResolution::Original,
        exists|planes: Seq<[u16; 3]>|
            #[trigger] spec_encode(
                spec_resize(
                    spec_validate_and_decode(cfg, input, prepared, rss)->Ok_0,
                    spec_convert_multi(cfg, input, prepared, rss, ycbcr)->Ok_0[i].0,
                ),
                cfg.quality,
                cfg.speed,
                cfg.alpha_quality,
                planes,
            ) == Ok::<Seq<u8>, ErrorKind>(spec_convert_multi(cfg, input, prepared, rss, ycbcr)->Ok_0[i].1),
{
    let req = requested_resolutions(cfg);
    let uniq = dedup(req);
    lemma_dedup(req);
    let img = spec_validate_and_decode(cfg, input, prepared, rss)->Ok_0;
    let rs = rss.subrange(4, rss.len() as int);
    let base = baseline_of(rss[3]);
    let lim = cfg.memory_limit_bytes;
    let datas = encode_from(cfg, img, uniq, lim, base, rs, ycbcr, 0)->Ok_0;
    lemma_encode_from_all(cfg, img, uniq, lim, base, rs, ycbcr, 0);
    assert(req.contains(req[i]));
    assert(uniq.contains(req[i]));
    let c = slot_of(uniq, req[i]);
    assert(0 <= c < uniq.len() && uniq[c] == req[i]);
    assert(spec_encode_at(cfg, img, uniq[c], ycbcr[c]) == Ok::<Seq<u8>, ErrorKind>(datas[c]));
    assert(assemble(req, uniq, datas)[i] == (req[i], datas[c]));
    let outs = spec_convert_multi(cfg, input, prepared, rss, ycbcr)->Ok_0;
    assert(outs == assemble(req, uniq, datas));
    let res = if cfg.output_resolutions@.len() == 0 {
        OutputResolution::Original
    } else {
        cfg.output_resolutions@[i]
    };
    assert(res == req[i]);
    assert(outs[i].0 == res);
    assert(outs.len() == req.len());
    assert(req.len() == (if cfg.output_resolutions@.len() == 0 {
        1
    } else {
        cfg.output_resolutions@.len() as int
    }));
    let r = spec_resize(img, res);
    assert(r.0 > 0 && r.1 > 0);
    assert(spec_encode(r, cfg.quality, cfg.speed, cfg.alpha_quality, ycbcr[c]) == Ok::<
        Seq<u8>,
        ErrorKind,
    >(outs[i].1));
    assert(exists|planes: Seq<[u16; 3]>|
        #[trigger] spec_encode(r, cfg.quality, cfg.speed, cfg.alpha_quality, planes) == Ok::<
            Seq<u8>,
            ErrorKind,
        >(outs[i].1));
}

/// The metadata step has one outcome for a given strip flag and input.
pub proof fn lemma_prepared_is_unique(
    strip: bool,
    input: Seq<u8>,
    p: Result<Seq<u8>, ErrorKind>,
    q: Result<Seq<u8>, ErrorKind>,
)
    requires
        is_prepared(strip, input, p),
        is_prepared(strip, input, q),
    ensures
        p == q,
{
}

/// A batch converts each input as `convert` converts it alone: the outcome
/// of the `i`-th input of a finished batch is that of a finished `convert`
/// of the same input by a converter with the same configuration, handed the
/// same readings and YCbCr planes.
pub proof fn lemma_batch_result_is_single_conversion(
    batch: &BatchConversion,
    conversion: &Conversion,
    i: int,
)
    requires
        batch.wf(),
        batch.finished(),
        conversion.wf(),
        conversion.finished(),
        !conversion.is_multi(),
        0 <= i < batch.inputs_view().len(),
        conversion.cfg() == batch.cfg(),
        conversion.input_bytes() == batch.inputs_view()[i],
        conversion.readings() == batch.segments()[i],
        conversion.planes() == batch.plane_logs()[i],
    ensures
        batch.preps()[i] == conversion.prepared(),
        spec_convert(
            batch.cfg(),
            batch.inputs_view()[i],
            batch.preps()[i],
            batch.segments()[i],
            batch.plane_logs()[i],
        ) == spec_convert(
            conversion.cfg(),
            conversion.input_bytes(),
            conversion.prepared(),
            conversion.readings(),
            conversion.planes(),
        ),
{
    assert(is_prepared(batch.cfg().strip_exif, batch.inputs_view()[i], batch.preps()[i]));
    lemma_prepared_is_unique(
        batch.cfg().strip_exif,
        batch.inputs_view()[i],
        batch.preps()[i],
        conversion.prepared(),
    );
}

/// A successful run from `k` holds the encoding of each remaining distinct
/// resolution at its place.
proof fn lemma_encode_from_all(
    cfg: Config,
    img: ImageView,
    uniq: Seq<OutputResolution>,
    limit: u64,
    baseline: u64,
    rs: Seq<Option<u64>>,
    ycbcr: Seq<Seq<[u16; 3]>>,
    k: int,
)
    requires
        0 <= k <= uniq.len(),
        encode_from(cfg, img, uniq, limit, baseline, rs, ycbcr, k) is Ok,
    ensures
        ({
            let d = encode_from(cfg, img, uniq, limit, baseline, rs, ycbcr, k)->Ok_0;
            &&& d.len() == uniq.len() - k
            &&& forall|m: int|
                k <= m < uniq.len() ==> #[trigger] spec_encode_at(cfg, img, uniq[m], ycbcr[m]) == Ok::<
                    Seq<u8>,
                    ErrorKind,
                >(d[m - k])
        }),
    decreases uniq.len() - k,
{
    if k < uniq.len() {
        lemma_encode_from_all(cfg, img, uniq, limit, baseline, rs, ycbcr, k + 1);
        let d = encode_from(cfg, img, uniq, limit, baseline, rs, ycbcr, k)->Ok_0;
        let rest = encode_from(cfg, img, uniq, limit, baseline, rs, ycbcr, k + 1)->Ok_0;
        assert(d == seq![spec_encode_at(cfg, img, uniq[k], ycbcr[k])->Ok_0] + rest);
        assert forall|m: int| k <= m < uniq.len() implies #[trigger] spec_encode_at(cfg, img, uniq[m], ycbcr[m])
            == Ok::<Seq<u8>, ErrorKind>(d[m - k]) by {
            if m > k {
                assert(d[m - k] == rest[m - (k + 1)]);
            }
        }
    }
}

/// Readings that agree on a prefix agree on the encodings checked there.
proof fn lemma_prefix_extend(
    cfg: Config,
    img: ImageView,
    uniq: Seq<OutputResolution>,
    limit: u64,
    baseline: u64,
    rs: Seq<Option<u64>>,
    rs2: Seq<Option<u64>>,
    ycbcr: Seq<Seq<[u16; 3]>>,
    ycbcr2: Seq<Seq<[u16; 3]>>,
    enc: Seq<Seq<u8>>,
)
    requires
        encoded_prefix_ok(cfg, img, uniq, limit, baseline, rs, ycbcr, enc),
        rs2.len() >= rs.len(),
        forall|i: int| 0 <= i < rs.len() ==> rs2[i] == rs[i],
        forall|i: int| 0 <= i < enc.len() ==> ycbcr2[i] == ycbcr[i],
    ensures
        encoded_prefix_ok(cfg, img, uniq, limit, baseline, rs2, ycbcr2, enc),
{
    assert forall|j: int| 0 <= j < enc.len() implies {
        &&& #[trigger] guard_verdict(limit, baseline, rs2[2 * j]) is Ok
        &&& guard_verdict(limit, baseline, rs2[2 * j + 1]) is Ok
        &&& spec_encode_at(cfg, img, uniq[j], ycbcr2[j]) == Ok::<Seq<u8>, ErrorKind>(enc[j])
    } by {
        assert(rs2[2 * j] == rs[2 * j]);
        assert(rs2[2 * j + 1] == rs[2 * j + 1]);
        assert(guard_verdict(limit, baseline, rs[2 * j]) is Ok);
        assert(ycbcr2[j] == ycbcr[j]);
    }
}

/// The outputs in requested order, each with a copy of the encoding of its
/// distinct resolution.
fn assemble_outputs(
    requested: &Vec<OutputResolution>,
    unique: &Vec<OutputResolution>,
    encoded: &Vec<Vec<u8>>,
) -> (outs: Vec<ConversionOutput>)
    requires
        unique@ == dedup(requested@),
        encoded@.len() == unique@.len(),
    ensures
        outputs_view(outs@) == assemble(requested@, unique@, bytes_view(encoded@)),
{
    proof {
        lemma_dedup(requested@);
    }
    let ghost enc = bytes_view(encoded@);
    let mut outs: Vec<ConversionOutput> = Vec::new();
    let mut i: usize = 0;
    while i < requested.len()
        invariant
            i <= requested@.len(),
            unique@ == dedup(requested@),
            encoded@.len() == unique@.len(),
            enc == bytes_view(encoded@),
            outs@.len() == i,
            forall|x: OutputResolution| requested@.contains(x) <==> #[trigger] unique@.contains(x),
            forall|a: int, b: int|
                0 <= a < unique@.len() && 0 <= b < unique@.len() && a != b ==> unique@[a] != unique@[b],
            forall|m: int|
                0 <= m < i ==> #[trigger] outs@[m]@ == (
                    requested@[m],
                    enc[slot_of(unique@, requested@[m])],
                ),
        decreases requested@.len() - i,
    {
        let r = requested[i];
        assert(requested@.contains(r));
        assert(unique@.contains(r));
        let j = position_of(unique, r);
        proof {
            let c = slot_of(unique@, r);
            assert(0 <= c < unique@.len() && unique@[c] == r);
            assert(c == j as int);
        }
        let data = copy_bytes(encoded[j].as_slice());
        outs.push(ConversionOutput { resolution: r, data });
        i = i + 1;
    }
    assert(outputs_view(outs@) =~= assemble(requested@, unique@, enc));
    outs
}

} // verus!
