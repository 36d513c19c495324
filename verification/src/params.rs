//! Encoder parameters: named whole numbers, each checked against the domain
//! of its kind when it is made.

use crate::argument::{Argument, ArgumentView};
use crate::text::{integer_text, integer_to_text};
use vstd::prelude::*;
use vstd::string::*;

verus! {

/// The kinds of parameters. The first seven are those of SVT-AV1; the
/// PSY fork knows the others too.
#[derive(Clone, Copy, Debug, PartialEq, Eq, Structural, Hash)]
pub enum ParamKind {
    /// Constant rate factor.
    Crf,
    /// Speed preset.
    Preset,
    /// Strength of synthesised film grain.
    FilmGrain,
    /// Whether the source is denoised before grain is synthesised.
    FilmGrainDenoise,
    /// Whether variance boost is on.
    EnableVarianceBoost,
    /// Strength of variance boost.
    VarianceBoostStrength,
    /// Octile of variance boost.
    VarianceBoostOctile,
    /// Sharpness bias.
    Sharpness,
    /// Strength of temporal filtering.
    TfStrength,
    /// Bias towards dark frames.
    FrameLumaBias,
    /// Strength of quantiser scale compression.
    QpScaleCompressStrength,
}

/// What a parameter is tuned for.
#[derive(Clone, Copy, Debug, PartialEq, Eq, Structural, Hash)]
pub enum Tune {
    VisualQuality,
    PSNR,
    SSIM,
}

/// The encoder that a zone or a video is encoded with.
#[derive(Clone, Copy, Debug, PartialEq, Eq, Structural, Hash)]
pub enum EncodeSettings {
    X265,
    Av1Svt,
    Av1Aom,
    Av1Rav1e,
}

impl Default for EncodeSettings {
    fn default() -> (settings: EncodeSettings)
        ensures
            settings == EncodeSettings::X265,
    {
        EncodeSettings::X265
    }
}

impl Tune {
    /// The number that the encoder knows this tuning by.
    pub open spec fn spec_value(self) -> int {
        match self {
            Tune::VisualQuality => 0,
            Tune::PSNR => 1,
            Tune::SSIM => 2,
        }
    }

    /// The number that the encoder knows this tuning by.
    pub fn value(self) -> (n: u8)
        ensures
            n == self.spec_value(),
    {
        match self {
            Tune::VisualQuality => 0,
            Tune::PSNR => 1,
            Tune::SSIM => 2,
        }
    }

    /// The tuning that the encoder knows by `n`, if there is one.
    pub fn from_value(n: u8) -> (tune: Option<Tune>)
        ensures
            match tune {
                Some(t) => t.spec_value() == n,
                None => n > 2,
            },
    {
        match n {
            0 => Some(Tune::VisualQuality),
            1 => Some(Tune::PSNR),
            2 => Some(Tune::SSIM),
            _ => None,
        }
    }
}

/// The least value of a kind.
pub open spec fn lowest(kind: ParamKind) -> int {
    match kind {
        ParamKind::VarianceBoostStrength => 1,
        ParamKind::VarianceBoostOctile => 1,
        ParamKind::Sharpness => -7,
        _ => 0,
    }
}

/// The greatest value of a kind.
pub open spec fn highest(kind: ParamKind) -> int {
    match kind {
        ParamKind::Crf => 51,
        ParamKind::Preset => 13,
        ParamKind::FilmGrain => 50,
        ParamKind::FilmGrainDenoise => 1,
        ParamKind::EnableVarianceBoost => 1,
        ParamKind::VarianceBoostStrength => 4,
        ParamKind::VarianceBoostOctile => 8,
        ParamKind::Sharpness => 7,
        ParamKind::TfStrength => 3,
        ParamKind::FrameLumaBias => 100,
        ParamKind::QpScaleCompressStrength => 3,
    }
}

/// Whether a kind leaves out `value` though it lies between its least and
/// its greatest: preset 6 is no more.
pub open spec fn excluded(kind: ParamKind, value: int) -> bool {
    kind == ParamKind::Preset && value == 6
}

/// Whether `value` is a value of the kind.
pub open spec fn in_domain(kind: ParamKind, value: int) -> bool {
    lowest(kind) <= value <= highest(kind) && !excluded(kind, value)
}

/// The value that a parameter has where none is given.
pub open spec fn default_value(kind: ParamKind) -> int {
    match kind {
        ParamKind::Crf => 30,
        ParamKind::Preset => 5,
        ParamKind::FilmGrain => 7,
        ParamKind::FilmGrainDenoise => 1,
        ParamKind::EnableVarianceBoost => 1,
        ParamKind::VarianceBoostStrength => 2,
        ParamKind::VarianceBoostOctile => 6,
        ParamKind::Sharpness => 0,
        ParamKind::TfStrength => 0,
        ParamKind::FrameLumaBias => 0,
        ParamKind::QpScaleCompressStrength => 1,
    }
}

/// Whether SVT-AV1 itself knows the kind, and not its PSY fork alone.
pub open spec fn in_mainline(kind: ParamKind) -> bool {
    match kind {
        ParamKind::Crf => true,
        ParamKind::Preset => true,
        ParamKind::FilmGrain => true,
        ParamKind::FilmGrainDenoise => true,
        ParamKind::EnableVarianceBoost => true,
        ParamKind::VarianceBoostStrength => true,
        ParamKind::VarianceBoostOctile => true,
        _ => false,
    }
}

/// For every kind, its least and its greatest value are values of it, and
/// one less than the least and one more than the greatest are not.
pub proof fn lemma_domain_boundaries(kind: ParamKind)
    ensures
        in_domain(kind, lowest(kind)),
        in_domain(kind, highest(kind)),
        !in_domain(kind, lowest(kind) - 1),
        !in_domain(kind, highest(kind) + 1),
{
}

/// For every kind, the default is a value of it.
pub proof fn lemma_default_in_domain(kind: ParamKind)
    ensures
        in_domain(kind, default_value(kind)),
{
}

/// Why a number is no value of a kind.
#[derive(Clone, Copy, Debug, PartialEq, Eq, Structural, Hash)]
pub enum ConstraintViolation {
    /// The number is less than the least value, `min`.
    TooSmall { kind: ParamKind, value: i64, min: i64 },
    /// The number is greater than the greatest value, `max`.
    TooLarge { kind: ParamKind, value: i64, max: i64 },
    /// The number lies between the two, and is left out.
    Excluded { kind: ParamKind, value: i64 },
}

impl ConstraintViolation {
    /// What the violation says: which bound the number must keep.
    pub open spec fn spec_message(self) -> Seq<char> {
        match self {
            ConstraintViolation::TooSmall { min, .. } => "value must be >= "@ + integer_text(
                min as int,
            ),
            ConstraintViolation::TooLarge { max, .. } => "value must be <= "@ + integer_text(
                max as int,
            ),
            ConstraintViolation::Excluded { value, .. } => "value must not be "@ + integer_text(
                value as int,
            ),
        }
    }

    /// What the violation says, for a reader.
    pub fn message(&self) -> (text: String)
        ensures
            text@ == self.spec_message(),
    {
        match self {
            ConstraintViolation::TooSmall { min, .. } => {
                let mut text = "value must be >= ".to_owned();
                text.append(integer_to_text(*min).as_str());
                text
            },
            ConstraintViolation::TooLarge { max, .. } => {
                let mut text = "value must be <= ".to_owned();
                text.append(integer_to_text(*max).as_str());
                text
            },
            ConstraintViolation::Excluded { value, .. } => {
                let mut text = "value must not be ".to_owned();
                text.append(integer_to_text(*value).as_str());
                text
            },
        }
    }
}

/// What `Param::try_from` makes of a number.
pub open spec fn checked(kind: ParamKind, raw: i64) -> Result<(ParamKind, int), ConstraintViolation> {
    if raw < lowest(kind) {
        Err(ConstraintViolation::TooSmall { kind, value: raw, min: lowest(kind) as i64 })
    } else if raw > highest(kind) {
        Err(ConstraintViolation::TooLarge { kind, value: raw, max: highest(kind) as i64 })
    } else if excluded(kind, raw as int) {
        Err(ConstraintViolation::Excluded { kind, value: raw })
    } else {
        Ok((kind, raw as int))
    }
}

/// A number is accepted exactly where it is a value of the kind.
pub proof fn lemma_checked_is_domain(kind: ParamKind, raw: i64)
    ensures
        checked(kind, raw) is Ok <==> in_domain(kind, raw as int),
{
}

/// The name of a kind in snake case, as `convert_case` writes it.
pub uninterp spec fn snake_case_of(identifier: Seq<char>) -> Seq<char>;

/// Writes a name in snake case with `convert_case::Casing::to_case` and
/// `Case::Snake`.
///
/// Trusted: the result is `snake_case_of` the name.
#[verifier::external_body]
fn to_snake_case(identifier: &str) -> (key: String)
    ensures
        key@ == snake_case_of(identifier@),
{
    convert_case::Casing::to_case(&identifier, convert_case::Case::Snake)
}

impl ParamKind {
    /// The name of the kind.
    pub open spec fn spec_identifier(self) -> Seq<char> {
        match self {
            ParamKind::Crf => "Crf"@,
            ParamKind::Preset => "Preset"@,
            ParamKind::FilmGrain => "FilmGrain"@,
            ParamKind::FilmGrainDenoise => "FilmGrainDenoise"@,
            ParamKind::EnableVarianceBoost => "EnableVarianceBoost"@,
            ParamKind::VarianceBoostStrength => "VarianceBoostStrength"@,
            ParamKind::VarianceBoostOctile => "VarianceBoostOctile"@,
            ParamKind::Sharpness => "Sharpness"@,
            ParamKind::TfStrength => "TfStrength"@,
            ParamKind::FrameLumaBias => "FrameLumaBias"@,
            ParamKind::QpScaleCompressStrength => "QpScaleCompressStrength"@,
        }
    }

    /// The name of the kind.
    pub fn identifier(self) -> (name: &'static str)
        ensures
            name@ == self.spec_identifier(),
    {
        match self {
            ParamKind::Crf => "Crf",
            ParamKind::Preset => "Preset",
            ParamKind::FilmGrain => "FilmGrain",
            ParamKind::FilmGrainDenoise => "FilmGrainDenoise",
            ParamKind::EnableVarianceBoost => "EnableVarianceBoost",
            ParamKind::VarianceBoostStrength => "VarianceBoostStrength",
            ParamKind::VarianceBoostOctile => "VarianceBoostOctile",
            ParamKind::Sharpness => "Sharpness",
            ParamKind::TfStrength => "TfStrength",
            ParamKind::FrameLumaBias => "FrameLumaBias",
            ParamKind::QpScaleCompressStrength => "QpScaleCompressStrength",
        }
    }

    /// The key under which the kind stands on a command line: its name in
    /// snake case.
    pub fn key(self) -> (key: String)
        ensures
            key@ == snake_case_of(self.spec_identifier()),
    {
        to_snake_case(self.identifier())
    }

    /// The least value of the kind.
    pub fn min(self) -> (value: i64)
        ensures
            value == lowest(self),
    {
        match self {
            ParamKind::VarianceBoostStrength => 1,
            ParamKind::VarianceBoostOctile => 1,
            ParamKind::Sharpness => -7,
            _ => 0,
        }
    }

    /// The greatest value of the kind.
    pub fn max(self) -> (value: i64)
        ensures
            value == highest(self),
    {
        match self {
            ParamKind::Crf => 51,
            ParamKind::Preset => 13,
            ParamKind::FilmGrain => 50,
            ParamKind::FilmGrainDenoise => 1,
            ParamKind::EnableVarianceBoost => 1,
            ParamKind::VarianceBoostStrength => 4,
            ParamKind::VarianceBoostOctile => 8,
            ParamKind::Sharpness => 7,
            ParamKind::TfStrength => 3,
            ParamKind::FrameLumaBias => 100,
            ParamKind::QpScaleCompressStrength => 3,
        }
    }

    /// Whether SVT-AV1 itself knows the kind.
    pub fn is_mainline(self) -> (yes: bool)
        ensures
            yes == in_mainline(self),
    {
        match self {
            ParamKind::Crf => true,
            ParamKind::Preset => true,
            ParamKind::FilmGrain => true,
            ParamKind::FilmGrainDenoise => true,
            ParamKind::EnableVarianceBoost => true,
            ParamKind::VarianceBoostStrength => true,
            ParamKind::VarianceBoostOctile => true,
            _ => false,
        }
    }
}

/// A parameter: a kind and one of its values. The value does not change.
#[derive(Clone, Copy, Debug, PartialEq, Eq, Structural, Hash)]
pub struct Param {
    kind: ParamKind,
    value: i64,
}

impl View for Param {
    type V = (ParamKind, int);

    /// The kind and the value.
    closed spec fn view(&self) -> (ParamKind, int) {
        (self.kind, self.value as int)
    }
}

impl Param {
    /// The value is a value of the kind.
    #[verifier::type_invariant]
    spec fn valid(self) -> bool {
        in_domain(self.kind, self.value as int)
    }

    /// The parameter of `kind` with the value `raw`, where `raw` is a value
    /// of the kind.
    pub fn try_from(kind: ParamKind, raw: i64) -> (made: Result<Param, ConstraintViolation>)
        ensures
            match made {
                Ok(param) => checked(kind, raw) == Ok::<_, ConstraintViolation>(param@),
                Err(e) => checked(kind, raw) == Err::<(ParamKind, int), _>(e),
            },
    {
        let min = kind.min();
        let max = kind.max();
        if raw < min {
            Err(ConstraintViolation::TooSmall { kind, value: raw, min })
        } else if raw > max {
            Err(ConstraintViolation::TooLarge { kind, value: raw, max })
        } else if matches!(kind, ParamKind::Preset) && raw == 6 {
            Err(ConstraintViolation::Excluded { kind, value: raw })
        } else {
            Ok(Param { kind, value: raw })
        }
    }

    /// The parameter of `kind` with its default value.
    pub fn default_for(kind: ParamKind) -> (param: Param)
        ensures
            param@ == (kind, default_value(kind)),
    {
        let value: i64 = match kind {
            ParamKind::Crf => 30,
            ParamKind::Preset => 5,
            ParamKind::FilmGrain => 7,
            ParamKind::FilmGrainDenoise => 1,
            ParamKind::EnableVarianceBoost => 1,
            ParamKind::VarianceBoostStrength => 2,
            ParamKind::VarianceBoostOctile => 6,
            ParamKind::Sharpness => 0,
            ParamKind::TfStrength => 0,
            ParamKind::FrameLumaBias => 0,
            ParamKind::QpScaleCompressStrength => 1,
        };
        Param { kind, value }
    }

    /// The kind.
    pub fn kind(&self) -> (kind: ParamKind)
        ensures
            kind == self@.0,
    {
        self.kind
    }

    /// The value, which is a value of the kind.
    pub fn value(&self) -> (value: i64)
        ensures
            value == self@.1,
            in_domain(self@.0, self@.1),
    {
        proof {
            use_type_invariant(self);
        }
        self.value
    }

    /// The key under which the parameter stands on a command line.
    pub fn key(&self) -> (key: String)
        ensures
            key@ == snake_case_of(self@.0.spec_identifier()),
    {
        self.kind.key()
    }

    /// The value as it stands on a command line: in decimal.
    pub fn val(&self) -> (text: String)
        ensures
            text@ == integer_text(self@.1),
    {
        integer_to_text(self.value)
    }

    /// The parameter as an argument of a command: its key and its value.
    pub fn to_argument(&self) -> (arg: Argument)
        ensures
            arg@ == parameter_argument(self@),
    {
        Argument::Parameter { key: self.key(), val: self.val() }
    }
}

/// The argument that stands for a parameter.
pub open spec fn parameter_argument(param: (ParamKind, int)) -> ArgumentView {
    ArgumentView::Parameter {
        key: snake_case_of(param.0.spec_identifier()),
        val: integer_text(param.1),
    }
}

/// The arguments that stand for a list of parameters, in its order.
pub open spec fn parameter_arguments(params: Seq<Param>) -> Seq<ArgumentView> {
    Seq::new(params.len(), |i: int| parameter_argument(params[i]@))
}

/// The arguments that stand for a list of parameters, one for each and in
/// the order of the list.
pub fn to_arguments(params: &Vec<Param>) -> (args: Vec<Argument>)
    ensures
        crate::argument::argument_views(args@) == parameter_arguments(params@),
{
    let mut args: Vec<Argument> = Vec::new();
    let mut i: usize = 0;
    while i < params.len()
        invariant
            i <= params.len(),
            args@.len() == i,
            forall|j: int| 0 <= j < i ==> (#[trigger] args@[j])@ == parameter_argument(params@[j]@),
        decreases params.len() - i,
    {
        args.push(params[i].to_argument());
        i = i + 1;
    }
    proof {
        assert(crate::argument::argument_views(args@) =~= parameter_arguments(params@));
    }
    args
}

} // verus!
