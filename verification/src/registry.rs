//! Several front doors behind one address.

use vstd::prelude::*;
use crate::azure::AzureBlobAdapter;
use crate::azure::basics::{echo_client_request_id, payload_too_large_response, refuse};
use crate::clock::{Stamp, StampView};
use crate::faults::{
    after, after_view, before, before_view, deliver, plain, Before, BeforeView, Delivery,
    DeliveryView,
};
use crate::gcs::GcsAdapter;
use crate::gcs::basics::{is_json_api_request, refuse_json};
use crate::http::{
    content_length_mismatch, Context, ContextView, Request, RequestView, Response, ResponseView,
};
use crate::number::read_usize;
use crate::store::{
    perhaps, try_ask, Effect, EffectView, Gained, KnownView, Step, StepView, Tape, TapeView,
};
use crate::text::begins;
use crate::views::{seen, Text};

verus! {

/// A front door: which requests are for it, and how it serves them. Heads are requests whose
/// body has not been read.
pub trait ProviderAdapter: Send + Sync {
    spec fn name_view(&self) -> Text;

    spec fn accepts(&self, req: RequestView) -> bool;

    spec fn accepts_head(&self, head: RequestView) -> bool;

    spec fn too_large(&self, stamp: StampView, head: RequestView, max: int) -> ResponseView;

    spec fn incomplete(&self, stamp: StampView, head: RequestView) -> ResponseView;

    spec fn framing(&self, stamp: StampView, req: RequestView) -> Option<ResponseView>;

    spec fn serves(&self, cx: ContextView, tape: TapeView) -> StepView;

    fn name(&self) -> (r: &'static str)
        ensures
            r@ == self.name_view(),
    ;

    fn matches(&self, req: &Request) -> (r: bool)
        ensures
            r == self.accepts(req@),
    ;

    fn matches_request_head(&self, head: &Request) -> (r: bool)
        ensures
            r == self.accepts_head(head@),
    ;

    fn render_payload_too_large(&self, stamp: &Stamp, head: &Request, max_request_bytes: usize)
        -> (r: Response)
        ensures
            r@ == self.too_large(stamp@, head@, max_request_bytes as int),
    ;

    fn render_incomplete_body(&self, stamp: &Stamp, head: &Request) -> (r: Response)
        ensures
            r@ == self.incomplete(stamp@, head@),
    ;

    fn validate_request_framing(&self, stamp: &Stamp, req: &Request) -> (r: Option<Response>)
        ensures
            seen(r) == self.framing(stamp@, req@),
    ;

    fn handle(&self, cx: &Context, tape: Tape<'_>) -> (r: Step)
        ensures
            r@ == self.serves(cx@, tape@),
    ;
}

/// Front doors, of which the first that a request is for serves it.
pub struct AdapterRegistry<A> {
    pub adapters: Vec<A>,
}

/// The front doors of an address: the two of this library, and those for OCI Object Storage and
/// for S3, which are given.
pub enum FrontDoor<O, S> {
    Azure(AzureBlobAdapter),
    Gcs(GcsAdapter),
    Oci(O),
    S3(S),
}

/// What to do next about a request.
pub enum Service {
    /// Ask this, and put what came of it at the end of the tape.
    Perform(Effect),
    /// Send this.
    Deliver(Delivery),
    /// Give up, with a description.
    Fail(String),
}

/// The same over characters and bytes.
pub enum ServiceView {
    Perform(EffectView),
    Deliver(DeliveryView),
    Fail(Text),
}

impl View for Service {
    type V = ServiceView;

    open spec fn view(&self) -> ServiceView {
        match self {
            Service::Perform(effect) => ServiceView::Perform(effect@),
            Service::Deliver(delivery) => ServiceView::Deliver(delivery@),
            Service::Fail(message) => ServiceView::Fail(message@),
        }
    }
}

/// What comes of a step of the front door that serves a request.
pub open spec fn sent(req: RequestView, step: StepView) -> ServiceView {
    match step {
        StepView::Perform(effect) => ServiceView::Perform(effect),
        StepView::Fail(message) => ServiceView::Fail(message),
        StepView::Reply(response) => ServiceView::Deliver(after_view(req, response)),
    }
}

fn send(req: &Request, step: Step) -> (r: Service)
    ensures
        r@ == sent(req@, step@),
{
    match step {
        Step::Perform(effect) => Service::Perform(effect),
        Step::Fail(message) => Service::Fail(message),
        Step::Reply(response) => Service::Deliver(after(req, response)),
    }
}

/// The first front door, at or after place `i`, that a request is for.
pub open spec fn first_match<A: ProviderAdapter>(
    adapters: Seq<A>,
    req: RequestView,
    i: int,
) -> Option<int>
    decreases adapters.len() - i,
{
    if i >= adapters.len() {
        None
    } else if adapters[i].accepts(req) {
        Some(i)
    } else {
        first_match(adapters, req, i + 1)
    }
}

/// The first front door, at or after place `i`, that the head of a request is for.
pub open spec fn first_head_match<A: ProviderAdapter>(
    adapters: Seq<A>,
    head: RequestView,
    i: int,
) -> Option<int>
    decreases adapters.len() - i,
{
    if i >= adapters.len() {
        None
    } else if adapters[i].accepts_head(head) {
        Some(i)
    } else {
        first_head_match(adapters, head, i + 1)
    }
}

/// A request that a front door serves: it is refused where its length is not as declared,
/// fails as it asks to, or is served.
pub open spec fn served<A: ProviderAdapter>(
    adapters: Seq<A>,
    i: int,
    cx: ContextView,
    tape: TapeView,
) -> ServiceView {
    match adapters[i].framing(cx.stamp, cx.req) {
        Some(refusal) => ServiceView::Deliver(plain(refusal)),
        None => match before_view(cx.stamp, cx.req, adapters[i].name_view()) {
            BeforeView::Respond(response) => ServiceView::Deliver(plain(response)),
            BeforeView::Continue => sent(cx.req, adapters[i].serves(cx, tape)),
            BeforeView::Pause(millis) => match perhaps::<()>(tape, EffectView::Sleep(millis)) {
                KnownView::Halt(step) => sent(cx.req, step),
                KnownView::Got(_, tape) => sent(cx.req, adapters[i].serves(cx, tape)),
            },
        },
    }
}

/// A request that the first front door it is for serves.
pub open spec fn dispatched<A: ProviderAdapter>(
    adapters: Seq<A>,
    cx: ContextView,
    tape: TapeView,
) -> ServiceView {
    match first_match(adapters, cx.req, 0) {
        Some(i) => served(adapters, i, cx, tape),
        None => ServiceView::Fail("No provider adapter matched the request"@),
    }
}

impl<O: ProviderAdapter, S: ProviderAdapter> AdapterRegistry<FrontDoor<O, S>> {
    /// The front doors for Azure Blob, Google Cloud Storage, OCI Object Storage and S3, in this
    /// order.
    pub fn front_doors(oci: O, s3: S) -> (r: Self)
        ensures
            r.adapters@.len() == 4,
            r.adapters@[0] is Azure,
            r.adapters@[1] is Gcs,
            r.adapters@[2] == FrontDoor::<O, S>::Oci(oci),
            r.adapters@[3] == FrontDoor::<O, S>::S3(s3),
    {
        let mut adapters: Vec<FrontDoor<O, S>> = Vec::new();
        adapters.push(FrontDoor::Azure(AzureBlobAdapter::new()));
        adapters.push(FrontDoor::Gcs(GcsAdapter::new()));
        adapters.push(FrontDoor::Oci(oci));
        adapters.push(FrontDoor::S3(s3));
        AdapterRegistry { adapters }
    }
}

impl<O: ProviderAdapter + Default, S: ProviderAdapter + Default> Default for AdapterRegistry<
    FrontDoor<O, S>,
> {
    fn default() -> (r: Self)
        ensures
            r.adapters@.len() == 4,
            r.adapters@[0] is Azure,
            r.adapters@[1] is Gcs,
            r.adapters@[2] is Oci,
            r.adapters@[3] is S3,
    {
        Self::front_doors(O::default(), S::default())
    }
}

impl<A: ProviderAdapter> AdapterRegistry<A> {
    pub fn new(adapters: Vec<A>) -> (r: Self)
        ensures
            r.adapters@ == adapters@,
    {
        AdapterRegistry { adapters }
    }

    fn find(&self, req: &Request) -> (r: Option<usize>)
        ensures
            match r {
                Some(i) => first_match(self.adapters@, req@, 0) == Some(i as int) && i
                    < self.adapters@.len(),
                None => first_match(self.adapters@, req@, 0) is None,
            },
    {
        let mut i: usize = 0;
        while i < self.adapters.len()
            invariant
                i <= self.adapters.len(),
                first_match(self.adapters@, req@, 0) == first_match(
                    self.adapters@,
                    req@,
                    i as int,
                ),
            decreases self.adapters.len() - i,
        {
            if self.adapters[i].matches(req) {
                return Some(i);
            }
            i += 1;
        }
        None
    }

    fn find_head(&self, head: &Request) -> (r: Option<usize>)
        ensures
            match r {
                Some(i) => first_head_match(self.adapters@, head@, 0) == Some(i as int) && i
                    < self.adapters@.len(),
                None => first_head_match(self.adapters@, head@, 0) is None,
            },
    {
        let mut i: usize = 0;
        while i < self.adapters.len()
            invariant
                i <= self.adapters.len(),
                first_head_match(self.adapters@, head@, 0) == first_head_match(
                    self.adapters@,
                    head@,
                    i as int,
                ),
            decreases self.adapters.len() - i,
        {
            if self.adapters[i].matches_request_head(head) {
                return Some(i);
            }
            i += 1;
        }
        None
    }

    /// Serves a request.
    pub fn handle(&self, cx: &Context, tape: Tape<'_>) -> (r: Service)
        ensures
            r@ == dispatched(self.adapters@, cx@, tape@),
    {
        let i: usize = match self.find(&cx.req) {
            Some(i) => i,
            None => return Service::Fail("No provider adapter matched the request".to_owned()),
        };
        let adapter = &self.adapters[i];
        match adapter.validate_request_framing(&cx.stamp, &cx.req) {
            Some(refusal) => return Service::Deliver(deliver(refusal)),
            None => {},
        }
        let tape = match before(&cx.stamp, &cx.req, adapter.name()) {
            Before::Respond(response) => return Service::Deliver(deliver(response)),
            Before::Continue => tape,
            Before::Pause(millis) => match try_ask::<()>(tape, Effect::Sleep(millis)) {
                Gained::Halt(step) => return send(&cx.req, step),
                Gained::Got(_, tape) => tape,
            },
        };
        send(&cx.req, adapter.handle(cx, tape))
    }

    /// The reply to a body that is longer than the server takes, in the form of the front door
    /// that the head of the request is for, and otherwise as given, which is the form of S3.
    pub fn render_payload_too_large(
        &self,
        stamp: &Stamp,
        head: &Request,
        max_request_bytes: usize,
        otherwise: Response,
    ) -> (r: Response)
        ensures
            r@ == match first_head_match(self.adapters@, head@, 0) {
                Some(i) => self.adapters@[i].too_large(stamp@, head@, max_request_bytes as int),
                None => otherwise@,
            },
    {
        match self.find_head(head) {
            Some(i) => self.adapters[i].render_payload_too_large(stamp, head, max_request_bytes),
            None => otherwise,
        }
    }

    /// The reply to a body that ended early, in the form of the front door that the head of the
    /// request is for, and otherwise as given, which is the form of S3.
    pub fn render_incomplete_body(&self, stamp: &Stamp, head: &Request, otherwise: Response) -> (r:
        Response)
        ensures
            r@ == match first_head_match(self.adapters@, head@, 0) {
                Some(i) => self.adapters@[i].incomplete(stamp@, head@),
                None => otherwise@,
            },
    {
        match self.find_head(head) {
            Some(i) => self.adapters[i].render_incomplete_body(stamp, head),
            None => otherwise,
        }
    }
}

impl ProviderAdapter for AzureBlobAdapter {
    open spec fn name_view(&self) -> Text {
        "azure-blob"@
    }

    open spec fn accepts(&self, req: RequestView) -> bool {
        crate::azure::adapter::matches(req)
    }

    open spec fn accepts_head(&self, head: RequestView) -> bool {
        crate::azure::adapter::matches_head(head)
    }

    open spec fn too_large(&self, stamp: StampView, head: RequestView, max: int) -> ResponseView {
        crate::azure::adapter::too_large(stamp, head, max)
    }

    open spec fn incomplete(&self, stamp: StampView, head: RequestView) -> ResponseView {
        crate::azure::adapter::incomplete_body(stamp, head)
    }

    open spec fn framing(&self, stamp: StampView, req: RequestView) -> Option<ResponseView> {
        crate::azure::adapter::framing(stamp, req)
    }

    open spec fn serves(&self, cx: ContextView, tape: TapeView) -> StepView {
        crate::azure::adapter::handle(cx, tape)
    }

    fn name(&self) -> (r: &'static str) {
        "azure-blob"
    }

    fn matches(&self, req: &Request) -> (r: bool) {
        req.header("x-ms-version").is_some() || match req.header("authorization") {
            Some(value) => begins(value, "SharedKey "),
            None => false,
        } || req.header("x-ms-blob-type").is_some() || req.has_query_param("restype")
            || req.has_query_param("comp")
    }

    fn matches_request_head(&self, head: &Request) -> (r: bool) {
        Self::matches_head(head)
    }

    fn render_payload_too_large(&self, stamp: &Stamp, head: &Request, max_request_bytes: usize)
        -> (r: Response) {
        echo_client_request_id(
            head.header("x-ms-client-request-id"),
            payload_too_large_response(stamp, max_request_bytes),
        )
    }

    fn render_incomplete_body(&self, stamp: &Stamp, head: &Request) -> (r: Response) {
        echo_client_request_id(
            head.header("x-ms-client-request-id"),
            refuse(
                stamp,
                400,
                "InvalidHeaderValue",
                "The request body ended before the declared Content-Length was received.",
            ),
        )
    }

    fn validate_request_framing(&self, stamp: &Stamp, req: &Request) -> (r: Option<Response>) {
        let id = req.header("x-ms-client-request-id");
        let length = req.header("content-length");
        if Self::put_operation_requires_content_length(req) && length.is_none() {
            return Some(
                echo_client_request_id(
                    id,
                    refuse(
                        stamp,
                        411,
                        "MissingContentLengthHeader",
                        "The Content-Length header was not specified.",
                    ),
                ),
            );
        }
        match length {
            Some(value) => if read_usize(value).is_none() {
                return Some(
                    echo_client_request_id(
                        id,
                        refuse(
                            stamp,
                            400,
                            "InvalidHeaderValue",
                            "The value for Content-Length is invalid.",
                        ),
                    ),
                );
            },
            None => {},
        }
        if content_length_mismatch(req) {
            Some(
                echo_client_request_id(
                    id,
                    refuse(
                        stamp,
                        400,
                        "InvalidHeaderValue",
                        "The value for Content-Length does not match the request body.",
                    ),
                ),
            )
        } else {
            None
        }
    }

    fn handle(&self, cx: &Context, tape: Tape<'_>) -> (r: Step) {
        match Self::handle_request(cx, tape) {
            Step::Reply(response) => Step::Reply(
                echo_client_request_id(cx.req.header("x-ms-client-request-id"), response),
            ),
            other => other,
        }
    }
}

impl ProviderAdapter for GcsAdapter {
    open spec fn name_view(&self) -> Text {
        "gcs"@
    }

    open spec fn accepts(&self, req: RequestView) -> bool {
        crate::gcs::adapter::matches(req)
    }

    open spec fn accepts_head(&self, head: RequestView) -> bool {
        crate::gcs::adapter::matches_head(head)
    }

    open spec fn too_large(&self, stamp: StampView, head: RequestView, max: int) -> ResponseView {
        crate::gcs::basics::payload_too_large(stamp, is_json_api_request(head), max)
    }

    open spec fn incomplete(&self, stamp: StampView, head: RequestView) -> ResponseView {
        crate::gcs::adapter::incomplete_body(stamp, head)
    }

    open spec fn framing(&self, stamp: StampView, req: RequestView) -> Option<ResponseView> {
        crate::gcs::adapter::framing(stamp, req)
    }

    open spec fn serves(&self, cx: ContextView, tape: TapeView) -> StepView {
        crate::gcs::adapter::handle_request(cx, tape)
    }

    fn name(&self) -> (r: &'static str) {
        "gcs"
    }

    fn matches(&self, req: &Request) -> (r: bool) {
        Self::is_gcs_host(req) || match req.header("authorization") {
            Some(value) => begins(value, "GOOG1 "),
            None => false,
        } || req.has_query_param("GoogleAccessId") || Self::is_json_api_path(&req.path)
    }

    fn matches_request_head(&self, head: &Request) -> (r: bool) {
        Self::matches_head(head)
    }

    fn render_payload_too_large(&self, stamp: &Stamp, head: &Request, max_request_bytes: usize)
        -> (r: Response) {
        Self::payload_too_large_response(
            stamp,
            Self::is_json_api_request(head),
            max_request_bytes,
        )
    }

    fn render_incomplete_body(&self, stamp: &Stamp, head: &Request) -> (r: Response) {
        if Self::is_json_api_request(head) {
            refuse_json(
                stamp,
                400,
                "invalidArgument",
                "The request body did not contain the declared number of bytes.",
            )
        } else {
            crate::gcs::basics::refuse(
                stamp,
                400,
                "IncompleteBody",
                "The request body did not contain the declared number of bytes.",
            )
        }
    }

    fn validate_request_framing(&self, stamp: &Stamp, req: &Request) -> (r: Option<Response>) {
        Self::framing(stamp, req)
    }

    fn handle(&self, cx: &Context, tape: Tape<'_>) -> (r: Step) {
        Self::handle_request(cx, tape)
    }
}

impl<O: ProviderAdapter, S: ProviderAdapter> ProviderAdapter for FrontDoor<O, S> {
    open spec fn name_view(&self) -> Text {
        match self {
            FrontDoor::Azure(adapter) => adapter.name_view(),
            FrontDoor::Gcs(adapter) => adapter.name_view(),
            FrontDoor::Oci(adapter) => adapter.name_view(),
            FrontDoor::S3(adapter) => adapter.name_view(),
        }
    }

    open spec fn accepts(&self, req: RequestView) -> bool {
        match self {
            FrontDoor::Azure(adapter) => adapter.accepts(req),
            FrontDoor::Gcs(adapter) => adapter.accepts(req),
            FrontDoor::Oci(adapter) => adapter.accepts(req),
            FrontDoor::S3(adapter) => adapter.accepts(req),
        }
    }

    open spec fn accepts_head(&self, head: RequestView) -> bool {
        match self {
            FrontDoor::Azure(adapter) => adapter.accepts_head(head),
            FrontDoor::Gcs(adapter) => adapter.accepts_head(head),
            FrontDoor::Oci(adapter) => adapter.accepts_head(head),
            FrontDoor::S3(adapter) => adapter.accepts_head(head),
        }
    }

    open spec fn too_large(&self, stamp: StampView, head: RequestView, max: int) -> ResponseView {
        match self {
            FrontDoor::Azure(adapter) => adapter.too_large(stamp, head, max),
            FrontDoor::Gcs(adapter) => adapter.too_large(stamp, head, max),
            FrontDoor::Oci(adapter) => adapter.too_large(stamp, head, max),
            FrontDoor::S3(adapter) => adapter.too_large(stamp, head, max),
        }
    }

    open spec fn incomplete(&self, stamp: StampView, head: RequestView) -> ResponseView {
        match self {
            FrontDoor::Azure(adapter) => adapter.incomplete(stamp, head),
            FrontDoor::Gcs(adapter) => adapter.incomplete(stamp, head),
            FrontDoor::Oci(adapter) => adapter.incomplete(stamp, head),
            FrontDoor::S3(adapter) => adapter.incomplete(stamp, head),
        }
    }

    open spec fn framing(&self, stamp: StampView, req: RequestView) -> Option<ResponseView> {
        match self {
            FrontDoor::Azure(adapter) => adapter.framing(stamp, req),
            FrontDoor::Gcs(adapter) => adapter.framing(stamp, req),
            FrontDoor::Oci(adapter) => adapter.framing(stamp, req),
            FrontDoor::S3(adapter) => adapter.framing(stamp, req),
        }
    }

    open spec fn serves(&self, cx: ContextView, tape: TapeView) -> StepView {
        match self {
            FrontDoor::Azure(adapter) => adapter.serves(cx, tape),
            FrontDoor::Gcs(adapter) => adapter.serves(cx, tape),
            FrontDoor::Oci(adapter) => adapter.serves(cx, tape),
            FrontDoor::S3(adapter) => adapter.serves(cx, tape),
        }
    }

    fn name(&self) -> (r: &'static str) {
        match self {
            FrontDoor::Azure(adapter) => adapter.name(),
            FrontDoor::Gcs(adapter) => adapter.name(),
            FrontDoor::Oci(adapter) => adapter.name(),
            FrontDoor::S3(adapter) => adapter.name(),
        }
    }

    fn matches(&self, req: &Request) -> (r: bool) {
        match self {
            FrontDoor::Azure(adapter) => adapter.matches(req),
            FrontDoor::Gcs(adapter) => adapter.matches(req),
            FrontDoor::Oci(adapter) => adapter.matches(req),
            FrontDoor::S3(adapter) => adapter.matches(req),
        }
    }

    fn matches_request_head(&self, head: &Request) -> (r: bool) {
        match self {
            FrontDoor::Azure(adapter) => adapter.matches_request_head(head),
            FrontDoor::Gcs(adapter) => adapter.matches_request_head(head),
            FrontDoor::Oci(adapter) => adapter.matches_request_head(head),
            FrontDoor::S3(adapter) => adapter.matches_request_head(head),
        }
    }

    fn render_payload_too_large(&self, stamp: &Stamp, head: &Request, max_request_bytes: usize)
        -> (r: Response) {
        match self {
            FrontDoor::Azure(adapter) => adapter.render_payload_too_large(
                stamp,
                head,
                max_request_bytes,
            ),
            FrontDoor::Gcs(adapter) => adapter.render_payload_too_large(
                stamp,
                head,
                max_request_bytes,
            ),
            FrontDoor::Oci(adapter) => adapter.render_payload_too_large(
                stamp,
                head,
                max_request_bytes,
            ),
            FrontDoor::S3(adapter) => adapter.render_payload_too_large(
                stamp,
                head,
                max_request_bytes,
            ),
        }
    }

    fn render_incomplete_body(&self, stamp: &Stamp, head: &Request) -> (r: Response) {
        match self {
            FrontDoor::Azure(adapter) => adapter.render_incomplete_body(stamp, head),
            FrontDoor::Gcs(adapter) => adapter.render_incomplete_body(stamp, head),
            FrontDoor::Oci(adapter) => adapter.render_incomplete_body(stamp, head),
            FrontDoor::S3(adapter) => adapter.render_incomplete_body(stamp, head),
        }
    }

    fn validate_request_framing(&self, stamp: &Stamp, req: &Request) -> (r: Option<Response>) {
        match self {
            FrontDoor::Azure(adapter) => adapter.validate_request_framing(stamp, req),
            FrontDoor::Gcs(adapter) => adapter.validate_request_framing(stamp, req),
            FrontDoor::Oci(adapter) => adapter.validate_request_framing(stamp, req),
            FrontDoor::S3(adapter) => adapter.validate_request_framing(stamp, req),
        }
    }

    fn handle(&self, cx: &Context, tape: Tape<'_>) -> (r: Step) {
        match self {
            FrontDoor::Azure(adapter) => adapter.handle(cx, tape),
            FrontDoor::Gcs(adapter) => adapter.handle(cx, tape),
            FrontDoor::Oci(adapter) => adapter.handle(cx, tape),
            FrontDoor::S3(adapter) => adapter.handle(cx, tape),
        }
    }
}

} // verus!
