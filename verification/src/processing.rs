use vstd::prelude::*;
use vstd::string::StringExecFns;
use crate::error::ImageServerError;
use crate::text::same_text;
use crate::transform::choose_resize_filter;
use crate::transform::rotation_for;
use crate::transform::spec_choose_resize_filter;
use crate::transform::spec_rotation_for;
use crate::transform::FilterChoice;
use crate::transform::Rotation;

verus! {

/// What a request asks to have done to an image. A size of 0 and the name
/// "None" each mean that a step is left out.
#[derive(Debug, Clone, Hash, PartialEq, Eq)]
pub struct ProcessParameters {
    pub resx: u32,
    pub resy: u32,
    pub resfilter: String,
    pub filter: String,
    pub f_param: i32,
    pub transform: String,
    pub t_param: i32,
    pub process: String,
    pub p1: i32,
    pub p2: i32,
    pub to: String,
}

impl ProcessParameters {
    /// These are the parameters of a request that asks for nothing.
    pub open spec fn is_default(&self) -> bool {
        &&& self.resx == 0
        &&& self.resy == 0
        &&& self.resfilter@ == "Optimal"@
        &&& self.filter@ == "None"@
        &&& self.f_param == 0
        &&& self.transform@ == "None"@
        &&& self.t_param == 0
        &&& self.process@ == "None"@
        &&& self.p1 == 0
        &&& self.p2 == 0
        &&& self.to@ == "None"@
    }

    /// The request asks for some step: a resize, a filter, a transform, a
    /// process or another output format.
    pub open spec fn spec_need_compute(&self) -> bool {
        ||| self.resx != 0
        ||| self.resy != 0
        ||| self.filter@ != "None"@
        ||| self.transform@ != "None"@
        ||| self.process@ != "None"@
        ||| self.to@ != "None"@
    }
}

/// The parameters of a request that names none.
pub fn default_param() -> (params: ProcessParameters)
    ensures
        params.is_default(),
        !params.spec_need_compute(),
{
    ProcessParameters {
        resx: 0,
        resy: 0,
        resfilter: String::from_str("Optimal"),
        filter: String::from_str("None"),
        f_param: 0,
        transform: String::from_str("None"),
        t_param: 0,
        process: String::from_str("None"),
        p1: 0,
        p2: 0,
        to: String::from_str("None"),
    }
}

/// Whether the image has to be decoded and worked on at all, or can be sent
/// as it is stored.
pub fn need_compute(process_params: &ProcessParameters) -> (needed: bool)
    ensures
        needed == process_params.spec_need_compute(),
{
    process_params.resx != 0 || process_params.resy != 0 || !same_text(
        process_params.filter.as_str(),
        "None",
    ) || !same_text(process_params.transform.as_str(), "None") || !same_text(
        process_params.process.as_str(),
        "None",
    ) || !same_text(process_params.to.as_str(), "None")
}

/// One operation on a decoded image.
#[derive(Clone, Copy, Debug, PartialEq, Eq, Structural)]
pub enum ImageOp {
    Resize { width: u32, height: u32, filter: FilterChoice },
    Blur(i32),
    Grayscale,
    Brighten(i32),
    Contrast(i32),
    FlipHorizontal,
    FlipVertical,
    Rotate(Rotation),
    HueRotate(i32),
    Invert,
    Unsharpen { sigma: i32, threshold: i32 },
}

/// The operation that a filter name, in lower case, stands for.
pub open spec fn spec_filter_op(lower: Seq<char>, param: i32) -> Option<ImageOp> {
    if lower == "blur"@ {
        Some(ImageOp::Blur(param))
    } else if lower == "bw"@ {
        Some(ImageOp::Grayscale)
    } else if lower == "brighten"@ {
        Some(ImageOp::Brighten(param))
    } else if lower == "contrast"@ {
        Some(ImageOp::Contrast(param))
    } else {
        None
    }
}

/// The operation that a filter name, in lower case, stands for; `None` for
/// a name that is no filter.
pub fn filter_op(lower: &str, param: i32) -> (op: Option<ImageOp>)
    ensures
        op == spec_filter_op(lower@, param),
{
    if same_text(lower, "blur") {
        Some(ImageOp::Blur(param))
    } else if same_text(lower, "bw") {
        Some(ImageOp::Grayscale)
    } else if same_text(lower, "brighten") {
        Some(ImageOp::Brighten(param))
    } else if same_text(lower, "contrast") {
        Some(ImageOp::Contrast(param))
    } else {
        None
    }
}

/// The operation that a transform name, in lower case, stands for.
pub open spec fn spec_transform_op(lower: Seq<char>, param: i32) -> Option<ImageOp> {
    if lower == "fliph"@ {
        Some(ImageOp::FlipHorizontal)
    } else if lower == "flipv"@ {
        Some(ImageOp::FlipVertical)
    } else if lower == "rotate"@ {
        Some(ImageOp::Rotate(spec_rotation_for(param)))
    } else if lower == "hue_rotate"@ {
        Some(ImageOp::HueRotate(param))
    } else {
        None
    }
}

/// The operation that a transform name, in lower case, stands for; `None`
/// for a name that is no transform.
pub fn transform_op(lower: &str, param: i32) -> (op: Option<ImageOp>)
    ensures
        op == spec_transform_op(lower@, param),
{
    if same_text(lower, "fliph") {
        Some(ImageOp::FlipHorizontal)
    } else if same_text(lower, "flipv") {
        Some(ImageOp::FlipVertical)
    } else if same_text(lower, "rotate") {
        Some(ImageOp::Rotate(rotation_for(param)))
    } else if same_text(lower, "hue_rotate") {
        Some(ImageOp::HueRotate(param))
    } else {
        None
    }
}

/// The operation that a process name, in lower case, stands for.
pub open spec fn spec_process_op(lower: Seq<char>, p1: i32, p2: i32) -> Option<ImageOp> {
    if lower == "invert"@ {
        Some(ImageOp::Invert)
    } else if lower == "unsharpen"@ {
        Some(ImageOp::Unsharpen { sigma: p1, threshold: p2 })
    } else {
        None
    }
}

/// The operation that a process name, in lower case, stands for; `None` for
/// a name that is no process.
pub fn process_op(lower: &str, p1: i32, p2: i32) -> (op: Option<ImageOp>)
    ensures
        op == spec_process_op(lower@, p1, p2),
{
    if same_text(lower, "invert") {
        Some(ImageOp::Invert)
    } else if same_text(lower, "unsharpen") {
        Some(ImageOp::Unsharpen { sigma: p1, threshold: p2 })
    } else {
        None
    }
}

/// What is to be done to an image: the operations in their order, and the
/// extension that names the format to encode the result in.
#[derive(Debug, PartialEq, Eq)]
pub struct ProcessingPlan {
    pub steps: Vec<ImageOp>,
    pub extension: String,
}

/// What planning comes to.
pub enum PlanOutcome {
    Ready { steps: Seq<ImageOp>, extension: Seq<char> },
    UnknownFilter,
    UnknownTransform,
    UnknownProcess,
    UnsupportedOutput,
    InvalidSource,
}

/// What the names of a request have been found to mean: each name in lower
/// case, and whether the two extensions name a format that can be written.
pub struct Readings {
    pub filter: Seq<char>,
    pub transform: Seq<char>,
    pub process: Seq<char>,
    pub target_known: bool,
    pub source_known: bool,
}

/// The resize step of a request: none where both sizes are 0.
pub open spec fn spec_resize_steps(params: ProcessParameters) -> Seq<ImageOp> {
    if params.resx != 0 || params.resy != 0 {
        seq![
            ImageOp::Resize {
                width: params.resx,
                height: params.resy,
                filter: spec_choose_resize_filter(params.resfilter@),
            },
        ]
    } else {
        seq![]
    }
}

/// `steps` with the operation for `name` at the end, where `name` asks for
/// one; `None` where `name` asks for an operation that does not exist.
pub open spec fn spec_then(steps: Seq<ImageOp>, name: Seq<char>, op: Option<ImageOp>) -> Option<
    Seq<ImageOp>,
> {
    if name == "None"@ {
        Some(steps)
    } else {
        match op {
            Some(op) => Some(steps.push(op)),
            None => None,
        }
    }
}

/// The plan for a request on an image with the extension `source`.
///
/// The steps come in a fixed order: resize, filter, transform, process. The
/// first name that stands for nothing ends the planning, the filter's
/// before the transform's before the process's. The result is encoded in
/// the format that the request names, else in that of the source; a format
/// that cannot be written ends the planning last.
pub open spec fn plan_outcome(params: ProcessParameters, source: Seq<char>, read: Readings) -> PlanOutcome {
    let resized = spec_resize_steps(params);
    match spec_then(resized, params.filter@, spec_filter_op(read.filter, params.f_param)) {
        None => PlanOutcome::UnknownFilter,
        Some(filtered) => match spec_then(
            filtered,
            params.transform@,
            spec_transform_op(read.transform, params.t_param),
        ) {
            None => PlanOutcome::UnknownTransform,
            Some(transformed) => match spec_then(
                transformed,
                params.process@,
                spec_process_op(read.process, params.p1, params.p2),
            ) {
                None => PlanOutcome::UnknownProcess,
                Some(steps) => if params.to@ != "None"@ {
                    if read.target_known {
                        PlanOutcome::Ready { steps, extension: params.to@ }
                    } else {
                        PlanOutcome::UnsupportedOutput
                    }
                } else if read.source_known {
                    PlanOutcome::Ready { steps, extension: source }
                } else {
                    PlanOutcome::InvalidSource
                },
            },
        },
    }
}

/// `result` is what `outcome` asks for: the plan itself, or the error that
/// names the parameter at fault.
pub open spec fn reports(
    result: Result<ProcessingPlan, ImageServerError>,
    outcome: PlanOutcome,
    params: ProcessParameters,
) -> bool {
    match outcome {
        PlanOutcome::Ready { steps, extension } => result matches Ok(plan) && plan.steps@ == steps
            && plan.extension@ == extension,
        PlanOutcome::UnknownFilter => result matches Err(ImageServerError::InvalidParameters(text))
            && text@ == "Unknown filter: "@ + params.filter@,
        PlanOutcome::UnknownTransform => result matches Err(
            ImageServerError::InvalidParameters(text),
        ) && text@ == "Unknown transform: "@ + params.transform@,
        PlanOutcome::UnknownProcess => result matches Err(
            ImageServerError::InvalidParameters(text),
        ) && text@ == "Unknown process: "@ + params.process@,
        PlanOutcome::UnsupportedOutput => result matches Err(
            ImageServerError::InvalidParameters(text),
        ) && text@ == "Unsupported output format: "@ + params.to@,
        PlanOutcome::InvalidSource => result matches Err(ImageServerError::InvalidFormat),
    }
}

/// The lower-case form of a text, as the standard library's
/// `str::to_lowercase` gives it.
pub uninterp spec fn lowercased(text: Seq<char>) -> Seq<char>;

/// Calls `str::to_lowercase` of the standard library. The contract claims
/// only that the result is a function of the text: it gives that function
/// the name `lowercased`.
#[verifier::external_body]
fn lowercase(text: &str) -> (lower: String)
    ensures
        lower@ == lowercased(text@),
{
    text.to_lowercase()
}

/// Whether the `image` crate knows a format for a file extension, as
/// `image::ImageFormat::from_extension` decides it.
pub uninterp spec fn format_known(extension: Seq<char>) -> bool;

/// Calls `image::ImageFormat::from_extension`, which looks the extension up
/// in a fixed table, and tells whether it found a format. The contract
/// claims only that the answer is a function of the extension: it gives
/// that function the name `format_known`.
#[verifier::external_body]
fn extension_known(extension: &str) -> (known: bool)
    ensures
        known == format_known(extension@),
{
    image::ImageFormat::from_extension(extension).is_some()
}

/// The error for a parameter that names nothing: `label` and the name.
fn unknown(label: &str, name: &String) -> (error: ImageServerError)
    ensures
        error matches ImageServerError::InvalidParameters(text) && text@ == label@ + name@,
{
    ImageServerError::InvalidParameters(String::from_str(label).concat(name.as_str()))
}

/// The plan for a request, from the parameters and from what their names
/// have been found to mean: `lower_filter`, `lower_transform` and
/// `lower_process` are the three names in lower case, `target_known` and
/// `source_known` tell whether the requested and the stored extension name
/// a format that can be written.
pub fn plan_with(
    params: &ProcessParameters,
    source_extension: &str,
    lower_filter: &str,
    lower_transform: &str,
    lower_process: &str,
    target_known: bool,
    source_known: bool,
) -> (result: Result<ProcessingPlan, ImageServerError>)
    ensures
        reports(
            result,
            plan_outcome(
                *params,
                source_extension@,
                Readings {
                    filter: lower_filter@,
                    transform: lower_transform@,
                    process: lower_process@,
                    target_known,
                    source_known,
                },
            ),
            *params,
        ),
{
    let mut steps: Vec<ImageOp> = Vec::new();
    if params.resx != 0 || params.resy != 0 {
        steps.push(
            ImageOp::Resize {
                width: params.resx,
                height: params.resy,
                filter: choose_resize_filter(params.resfilter.as_str()),
            },
        );
    }
    assert(steps@ =~= spec_resize_steps(*params));
    if !same_text(params.filter.as_str(), "None") {
        match filter_op(lower_filter, params.f_param) {
            Some(op) => steps.push(op),
            None => {
                return Err(unknown("Unknown filter: ", &params.filter));
            },
        }
    }
    if !same_text(params.transform.as_str(), "None") {
        match transform_op(lower_transform, params.t_param) {
            Some(op) => steps.push(op),
            None => {
                return Err(unknown("Unknown transform: ", &params.transform));
            },
        }
    }
    if !same_text(params.process.as_str(), "None") {
        match process_op(lower_process, params.p1, params.p2) {
            Some(op) => steps.push(op),
            None => {
                return Err(unknown("Unknown process: ", &params.process));
            },
        }
    }
    if !same_text(params.to.as_str(), "None") {
        if target_known {
            Ok(ProcessingPlan { steps, extension: params.to.clone() })
        } else {
            Err(unknown("Unsupported output format: ", &params.to))
        }
    } else if source_known {
        Ok(ProcessingPlan { steps, extension: String::from_str(source_extension) })
    } else {
        Err(ImageServerError::InvalidFormat)
    }
}

/// The plan for a request on an image stored with the extension
/// `source_extension`: what `plan_with` makes of the parameters, of the
/// lower-case forms of their names and of what the `image` crate knows of
/// the two extensions.
pub fn plan(params: &ProcessParameters, source_extension: &str) -> (result: Result<
    ProcessingPlan,
    ImageServerError,
>)
    ensures
        reports(
            result,
            plan_outcome(
                *params,
                source_extension@,
                Readings {
                    filter: lowercased(params.filter@),
                    transform: lowercased(params.transform@),
                    process: lowercased(params.process@),
                    target_known: format_known(params.to@),
                    source_known: format_known(source_extension@),
                },
            ),
            *params,
        ),
{
    let lower_filter = lowercase(params.filter.as_str());
    let lower_transform = lowercase(params.transform.as_str());
    let lower_process = lowercase(params.process.as_str());
    let target_known = extension_known(params.to.as_str());
    let source_known = extension_known(source_extension);
    plan_with(
        params,
        source_extension,
        lower_filter.as_str(),
        lower_transform.as_str(),
        lower_process.as_str(),
        target_known,
        source_known,
    )
}

} // verus!
