//! A worker: its reaction to bus messages, and the plan of one GPU execution
//! from the image's dimensions to the packed result read back.
use vstd::prelude::*;
use crate::layout::{
    MAX_ROW_PIXELS, dispatch_size, padded_bytes_per_row, padded_stride, strip_padding,
    tiles_covering, unpadded,
};
use crate::text::utf8_text;
use crate::topics::{INIT_TOPIC, result_topic, result_topic_of, same_text, send_topic, send_topic_of};
use crate::wire::{DecodeError, EkcImage, decode_outcome, wire_bytes};
use vstd::utf8::{decode_utf8, valid_utf8};

verus! {

/// The numbers of one GPU execution on a `width` by `height` image.
pub struct ExecutionPlan {
    pub width: u32,
    pub height: u32,
    /// Workgroups dispatched in x and in y.
    pub groups_x: u32,
    pub groups_y: u32,
    /// Bytes of one row of the image, as uploaded.
    pub unpadded_bytes_per_row: u32,
    /// Bytes of one row of the readback buffer.
    pub padded_bytes_per_row: u32,
    /// Size of the readback buffer.
    pub readback_size: u64,
}

/// Why an image cannot be run.
#[derive(Clone, Copy, Debug, PartialEq, Eq, Structural)]
pub enum PlanError {
    /// Width or height is zero.
    EmptyImage,
    /// A row of the image is too wide for the readback buffer's stride.
    TooWide,
}

impl ExecutionPlan {
    /// The plan fits the dimensions it was made for.
    pub open spec fn matches(&self, width: u32, height: u32) -> bool {
        &&& self.width == width && self.height == height
        &&& self.groups_x as int == tiles_covering(width as int, 16)
        &&& self.groups_y as int == tiles_covering(height as int, 16)
        &&& self.unpadded_bytes_per_row == width * 4
        &&& self.padded_bytes_per_row as int == padded_stride(width as int)
        &&& self.readback_size == padded_stride(width as int) * height
    }
}

/// Plans the execution on a `width` by `height` image: refused where a side is
/// zero, or where a row is wider than `MAX_ROW_PIXELS`.
pub fn plan_execution(width: u32, height: u32) -> (r: Result<ExecutionPlan, PlanError>)
    ensures
        r == Err::<ExecutionPlan, PlanError>(PlanError::EmptyImage) <==> (width == 0 || height == 0),
        r == Err::<ExecutionPlan, PlanError>(PlanError::TooWide) <==> (width > 0 && height > 0
            && width > MAX_ROW_PIXELS),
        r is Ok <==> (width > 0 && height > 0 && width <= MAX_ROW_PIXELS),
        r is Ok ==> r->Ok_0.matches(width, height),
{
    if width == 0 || height == 0 {
        return Err(PlanError::EmptyImage);
    }
    if width > MAX_ROW_PIXELS {
        return Err(PlanError::TooWide);
    }
    let (groups_x, groups_y) = dispatch_size(width, height);
    let padded: u32 = padded_bytes_per_row(width);
    assert(padded as u64 * height as u64 <= u32::MAX as u64 * u32::MAX as u64) by (nonlinear_arith)
        requires padded <= u32::MAX, height <= u32::MAX;
    Ok(ExecutionPlan {
        width,
        height,
        groups_x,
        groups_y,
        unpadded_bytes_per_row: width * 4,
        padded_bytes_per_row: padded,
        readback_size: padded as u64 * height as u64,
    })
}

/// The output image from the readback buffer of an execution: its rows with
/// the padding stripped. Refused where the buffer does not have the planned
/// size.
pub fn finish_readback(plan: &ExecutionPlan, padded: &[u8]) -> (r: Option<EkcImage>)
    requires
        plan.matches(plan.width, plan.height),
        plan.width <= MAX_ROW_PIXELS,
    ensures
        r is Some <==> padded@.len() == plan.readback_size,
        r is Some ==> r->0.width == plan.width && r->0.height == plan.height
            && r->0.image_data@ == unpadded(
            padded@,
            plan.width * 4,
            padded_stride(plan.width as int),
            plan.height as int,
        ),
        r is Some ==> r->0.image_data@.len() == plan.width * plan.height * 4,
{
    if padded.len() as u64 != plan.readback_size {
        return None;
    }
    let pixels = strip_padding(padded, plan.width, plan.height);
    assert(plan.width * 4 * plan.height == plan.width * plan.height * 4) by (nonlinear_arith);
    Some(EkcImage { image_data: pixels, width: plan.width, height: plan.height })
}

/// What a worker does about an incoming message.
pub enum WorkerAction {
    /// Build the GPU pipeline from this kernel source; once built, call
    /// `pipeline_built` and publish the identity on the registration topic.
    BuildPipeline(String),
    /// Run the pipeline on this image and publish `result_message` of the output.
    Execute(EkcImage),
    /// An image arrived that does not decode: report it and go on.
    Reject(DecodeError),
    /// Nothing to do: another topic, a kernel that is not UTF-8, or an image
    /// before the pipeline is built.
    Ignore,
}

/// A worker as mathematics: its identity and whether its pipeline is built.
pub struct WorkerView {
    pub id: Seq<char>,
    pub pipeline_ready: bool,
}

/// The protocol state of one worker.
pub struct Worker {
    id: String,
    pipeline_ready: bool,
}

impl View for Worker {
    type V = WorkerView;

    closed spec fn view(&self) -> WorkerView {
        WorkerView { id: self.id@, pipeline_ready: self.pipeline_ready }
    }
}

impl Worker {
    /// A worker with identity `id`, its pipeline not built yet.
    pub fn new(id: String) -> (r: Worker)
        ensures
            r@.id == id@,
            !r@.pipeline_ready,
    {
        Worker { id, pipeline_ready: false }
    }

    /// The worker's identity.
    pub fn id(&self) -> (r: &String)
        ensures
            r@ == self@.id,
    {
        &self.id
    }

    /// Whether the pipeline is built.
    pub fn is_ready(&self) -> (r: bool)
        ensures
            r == self@.pipeline_ready,
    {
        self.pipeline_ready
    }

    /// The topic on which this worker takes images.
    pub fn send_topic(&self) -> (r: String)
        ensures
            r@ == send_topic_of(self@.id),
    {
        send_topic(self.id.as_str())
    }

    /// Records that the pipeline is built: images are taken from now on.
    pub fn pipeline_built(&mut self)
        ensures
            final(self)@.id == old(self)@.id,
            final(self)@.pipeline_ready,
    {
        self.pipeline_ready = true;
    }

    /// Acts on one message: the kernel on `INIT_TOPIC`, or an image on this
    /// worker's send topic once its pipeline is built.
    pub fn handle_message(&self, topic: &str, payload: &[u8]) -> (r: WorkerAction)
        ensures
            topic@ == INIT_TOPIC@ && valid_utf8(payload@) ==> (r matches WorkerAction::BuildPipeline(k)
                && k@ == decode_utf8(payload@)),
            topic@ == INIT_TOPIC@ && !valid_utf8(payload@) ==> r is Ignore,
            topic@ != INIT_TOPIC@ && topic@ == send_topic_of(self@.id) && !self@.pipeline_ready
                ==> r is Ignore,
            topic@ != INIT_TOPIC@ && topic@ == send_topic_of(self@.id) && self@.pipeline_ready
                ==> match decode_outcome(payload@) {
                Ok((data, w, h)) => r matches WorkerAction::Execute(img) && img.image_data@ == data
                    && img.width == w && img.height == h,
                Err(e) => r matches WorkerAction::Reject(f) && f == e,
            },
            topic@ != INIT_TOPIC@ && topic@ != send_topic_of(self@.id) ==> r is Ignore,
    {
        if same_text(topic, INIT_TOPIC) {
            match utf8_text(payload) {
                Some(kernel) => WorkerAction::BuildPipeline(kernel),
                None => WorkerAction::Ignore,
            }
        } else {
            let mine = send_topic(self.id.as_str());
            if !same_text(topic, mine.as_str()) || !self.pipeline_ready {
                return WorkerAction::Ignore;
            }
            match EkcImage::decode(payload) {
                Ok(img) => WorkerAction::Execute(img),
                Err(e) => WorkerAction::Reject(e),
            }
        }
    }

    /// The message that returns `output`: this worker's result topic and the
    /// encoded image.
    pub fn result_message(&self, output: &EkcImage) -> (r: (String, Vec<u8>))
        ensures
            r.0@ == result_topic_of(self@.id),
            r.1@ == wire_bytes(output.image_data@, output.width, output.height),
    {
        (result_topic(self.id.as_str()), output.encode())
    }
}

} // verus!
