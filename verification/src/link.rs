//! What is shown while a device is being linked.
use vstd::prelude::*;

verus! {

/// The page up to the first occurrence of the URL.
pub const PAGE_HEAD: &'static str = "<!DOCTYPE html><html><head><title>Signal Link</title><meta charset=\"utf-8\"/></head><body>\n<h2>Scan with Signal</h2>\n<p>Provisioning URL:</p>\n<pre style=\"word-break:break-all;white-space:pre-wrap;background:#eee;padding:8px\">";

/// The page between the two occurrences of the URL.
pub const PAGE_MIDDLE: &'static str = "</pre>\n<p>Use Phone → Signal → Linked Devices → Scan</p>\n<script src=\"https://cdn.jsdelivr.net/npm/qrcodejs@1.0.0/qrcode.min.js\"></script>\n<div id=\"qrcode\"></div>\n<script>new QRCode(document.getElementById(\"qrcode\"), \"";

/// The page after the second occurrence of the URL.
pub const PAGE_TAIL: &'static str = "\");</script>\n</body></html>";

/// The notice on the terminal up to the URL.
pub const NOTICE_HEAD: &'static str = "\n==============================================\n        SIGNAL LINK DEVICE\n==============================================\n\nProvisioning URL:\n  ";

/// The notice on the terminal after the URL.
pub const NOTICE_TAIL: &'static str = "\n\nOpen Signal mobile > Linked Devices > Scan this QR:\n==============================================\n\n";

/// The page that shows the URL, as text and as a code to be scanned.
pub fn link_page(url: &str) -> (page: String)
    ensures
        page@ == PAGE_HEAD@ + url@ + PAGE_MIDDLE@ + url@ + PAGE_TAIL@,
{
    let mut page: String = PAGE_HEAD.to_owned();
    page.append(url);
    page.append(PAGE_MIDDLE);
    page.append(url);
    page.append(PAGE_TAIL);
    page
}

/// The notice on the terminal that shows the URL.
pub fn link_notice(url: &str) -> (notice: String)
    ensures
        notice@ == NOTICE_HEAD@ + url@ + NOTICE_TAIL@,
{
    let mut notice: String = NOTICE_HEAD.to_owned();
    notice.append(url);
    notice.append(NOTICE_TAIL);
    notice
}

/// What linking comes to: the error of the link itself goes before the error of showing its URL.
pub fn link_result<E>(linked: Result<(), E>, shown: Result<(), E>) -> (result: Result<(), E>)
    ensures
        result == match linked {
            Err(e) => Err(e),
            Ok(_) => shown,
        },
{
    match linked {
        Err(e) => Err(e),
        Ok(_) => shown,
    }
}

} // verus!
