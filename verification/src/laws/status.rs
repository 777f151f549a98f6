use vstd::prelude::*;

use crate::error::VideoErrorView;
use crate::status;
use crate::status::Delivery;

verus! {

/// What a status delivers of a media request: everything where it is 200, a part
/// where it is 206, and nothing else is ever taken for a delivery. Client and
/// server errors keep their number; every other status is named in the refusal.
pub proof fn law_only_two_statuses_deliver(code: u16, request: Seq<char>)
    ensures
        status::delivery(code, request) == Ok::<Delivery, VideoErrorView>(Delivery::Full)
            <==> code == 200,
        status::delivery(code, request) == Ok::<Delivery, VideoErrorView>(Delivery::Partial)
            <==> code == 206,
        status::delivery(code, request) is Err <==> code != 200 && code != 206,
        400 <= code < 600 ==> status::delivery(code, request) == Err::<Delivery, VideoErrorView>(
            VideoErrorView::HttpStatus(code),
        ),
        code != 200 && code != 206 && !(400 <= code < 600) ==> status::delivery(code, request)
            == Err::<Delivery, VideoErrorView>(
            VideoErrorView::DownloadError(
                "unexpected HTTP status "@ + status::status_name(code) + " for "@ + request,
            ),
        ),
{
}

} // verus!
