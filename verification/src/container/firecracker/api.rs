//! The Firecracker REST API: requests over a Unix socket and their responses.
use vstd::prelude::*;
use vstd::string::*;
#[allow(unused_imports)]
use vstd::utf8::encode_utf8;
use crate::json::{parse_text, text, to_compact, Fields, Json};
#[allow(unused_imports)]
use crate::json::{compact_text, field, is_plain, json_in, JsonV};
use crate::numbers::{parse_u64, u64_to_string};
#[allow(unused_imports)]
use crate::numbers::{decimal, law_decimal_is_read_back, parse_unsigned};
use crate::split::{lines, piece_after, split_whitespace, trim};
#[allow(unused_imports)]
use crate::split::{lines_of, second_piece, trimmed, words};
use crate::text::cat;
#[allow(unused_imports)]
use crate::json::{lemma_plain_key, plain_key};

verus! {

broadcast use crate::json::group_plain;

/// The keys of the objects that are written here are plain.
proof fn lemma_keys()
    ensures
        plain_key("action_type"@),
        plain_key("boot_args"@),
        plain_key("drive_id"@),
        plain_key("guest_cid"@),
        plain_key("host_dev_name"@),
        plain_key("iface_id"@),
        plain_key("initrd_path"@),
        plain_key("is_read_only"@),
        plain_key("is_root_device"@),
        plain_key("kernel_image_path"@),
        plain_key("mem_size_mib"@),
        plain_key("path_on_host"@),
        plain_key("uds_path"@),
        plain_key("vcpu_count"@),
{
    reveal_strlit("action_type");
    reveal_strlit("boot_args");
    reveal_strlit("drive_id");
    reveal_strlit("guest_cid");
    reveal_strlit("host_dev_name");
    reveal_strlit("iface_id");
    reveal_strlit("initrd_path");
    reveal_strlit("is_read_only");
    reveal_strlit("is_root_device");
    reveal_strlit("kernel_image_path");
    reveal_strlit("mem_size_mib");
    reveal_strlit("path_on_host");
    reveal_strlit("uds_path");
    reveal_strlit("vcpu_count");
    lemma_plain_key("action_type"@);
    lemma_plain_key("boot_args"@);
    lemma_plain_key("drive_id"@);
    lemma_plain_key("guest_cid"@);
    lemma_plain_key("host_dev_name"@);
    lemma_plain_key("iface_id"@);
    lemma_plain_key("initrd_path"@);
    lemma_plain_key("is_read_only"@);
    lemma_plain_key("is_root_device"@);
    lemma_plain_key("kernel_image_path"@);
    lemma_plain_key("mem_size_mib"@);
    lemma_plain_key("path_on_host"@);
    lemma_plain_key("uds_path"@);
    lemma_plain_key("vcpu_count"@);
}

/// A request to the API: what is put where.
#[derive(Debug)]
pub struct ApiRequest {
    /// The path.
    pub path: String,
    /// The body.
    pub body: Json,
}

/// The contents of an [`ApiRequest`].
#[verifier::ext_equal]
pub struct ApiRequestV {
    pub path: Seq<char>,
    pub body: JsonV,
}

impl DeepView for ApiRequest {
    type V = ApiRequestV;

    open spec fn deep_view(&self) -> ApiRequestV {
        ApiRequestV { path: self.path@, body: self.body.deep_view() }
    }
}

/// The text of a PUT request.
pub open spec fn put_text(path: Seq<char>, body: Seq<char>) -> Seq<char> {
    "PUT "@ + path
        + " HTTP/1.1\r\nHost: localhost\r\nAccept: application/json\r\nContent-Type: application/json\r\nContent-Length: "@
        + decimal(encode_utf8(body).len()) + "\r\n\r\n"@ + body
}

/// The status code of a response: the second word of its first line, or 500.
pub open spec fn status_code(response: Seq<char>) -> nat {
    let first = if lines_of(response).len() > 0 {
        lines_of(response)[0]
    } else {
        "HTTP/1.1 500 Internal Server Error"@
    };
    let w = words(first);
    if w.len() > 1 {
        match parse_unsigned(w[1], 0xffff) {
            Some(n) => n,
            None => 500,
        }
    } else {
        500
    }
}

/// The body of a response: what follows the first empty line, up to the next.
pub open spec fn response_body(response: Seq<char>) -> Seq<char> {
    match second_piece(response, "\r\n\r\n"@) {
        Some(b) => b,
        None => Seq::empty(),
    }
}

/// What a PUT request has led to.
pub open spec fn put_outcome(path: Seq<char>, response: Seq<char>) -> Result<
    Seq<char>,
    Seq<char>,
> {
    let code = status_code(response);
    if 200 <= code < 300 {
        Ok(response_body(response))
    } else {
        Err(
            "Firecracker API error: HTTP "@ + decimal(code) + " for PUT "@ + path + " \u{2014} "@
                + trimmed(response_body(response)),
        )
    }
}

/// Client for the Firecracker REST API.
pub struct FcApiClient {
    /// Path of the API socket.
    pub socket_path: String,
}

impl FcApiClient {
    /// A client for a socket.
    pub fn new(socket_path: &str) -> (r: Self)
        ensures
            r.socket_path@ == socket_path@,
    {
        FcApiClient { socket_path: socket_path.to_owned() }
    }

    /// The text of a PUT request with a given body.
    pub fn put_request(path: &str, body: &str) -> (r: String)
        ensures
            r@ == put_text(path@, body@),
    {
        let len: usize = body.as_bytes().len();
        let mut s: String = cat("PUT ", path);
        s.append(
            " HTTP/1.1\r\nHost: localhost\r\nAccept: application/json\r\nContent-Type: application/json\r\nContent-Length: ",
        );
        s.append(u64_to_string(len as u64).as_str());
        s.append("\r\n\r\n");
        s.append(body);
        s
    }

    /// The text of a request.
    pub fn encode(request: ApiRequest) -> (r: String)
        requires
            is_plain(request.body.deep_view(), 127),
        ensures
            r@ == put_text(request.path@, compact_text(request.body.deep_view())),
    {
        let body: String = to_compact(request.body);
        Self::put_request(request.path.as_str(), body.as_str())
    }

    /// The text of the request for the machine configuration.
    pub fn get_machine_config_request() -> (r: &'static str)
        ensures
            r@
                == "GET /machine-config HTTP/1.1\r\nHost: localhost\r\nAccept: application/json\r\n\r\n"@,
    {
        "GET /machine-config HTTP/1.1\r\nHost: localhost\r\nAccept: application/json\r\n\r\n"
    }

    /// Reads the status code of a response.
    pub fn status(response: &str) -> (r: u16)
        ensures
            r == status_code(response@),
    {
        let all: Vec<String> = lines(response);
        assert(all.deep_view().len() == all@.len());
        let first: String = if all.len() > 0 {
            assert(all.deep_view()[0] == all@[0]@);
            all[0].clone()
        } else {
            "HTTP/1.1 500 Internal Server Error".to_owned()
        };
        let w: Vec<String> = split_whitespace(first.as_str());
        assert(w.deep_view().len() == w@.len());
        if w.len() > 1 {
            assert(w.deep_view()[1] == w@[1]@);
            match parse_u64(w[1].as_str(), 0xffff) {
                Some(n) => n as u16,
                None => 500,
            }
        } else {
            500
        }
    }

    /// Reads the body of a response.
    pub fn body(response: &str) -> (r: String)
        ensures
            r@ == response_body(response@),
    {
        proof {
            reveal_strlit("\r\n\r\n");
        }
        match piece_after(response, "\r\n\r\n") {
            Some(b) => b,
            None => String::new(),
        }
    }

    /// What a PUT request has led to: the body of the response, or what is said
    /// where the status is not one of success.
    pub fn put_result(path: &str, response: &str) -> (r: Result<String, String>)
        ensures
            match r {
                Ok(b) => put_outcome(path@, response@) == Ok::<Seq<char>, Seq<char>>(b@),
                Err(e) => put_outcome(path@, response@) == Err::<Seq<char>, Seq<char>>(e@),
            },
    {
        let code: u16 = Self::status(response);
        let body: String = Self::body(response);
        if 200 <= code && code < 300 {
            Ok(body)
        } else {
            let mut s: String = cat(
                "Firecracker API error: HTTP ",
                u64_to_string(code as u64).as_str(),
            );
            s.append(" for PUT ");
            s.append(path);
            s.append(" \u{2014} ");
            s.append(trim(body.as_str()).as_str());
            Err(s)
        }
    }

    /// The machine configuration in a response: an empty object where there is none.
    pub fn machine_config_result(response: &str) -> (r: Json)
        ensures
            r.deep_view() == match json_in(
                encode_utf8(
                    match second_piece(response@, "\r\n\r\n"@) {
                        Some(b) => b,
                        None => "{}"@,
                    },
                ),
            ) {
                Some(v) => v,
                None => JsonV::Object(Map::empty()),
            },
    {
        proof {
            reveal_strlit("\r\n\r\n");
        }
        let body: String = match piece_after(response, "\r\n\r\n") {
            Some(b) => b,
            None => "{}".to_owned(),
        };
        match parse_text(body.as_str()) {
            Some(v) => v,
            None => Fields::new().object(),
        }
    }

    /// Configures VM machine resources.
    pub fn set_machine_config(vcpu_count: u32, mem_size_mib: u64) -> (r: ApiRequest)
        ensures
            r.deep_view() == machine_config_request(vcpu_count, mem_size_mib),
            is_plain(r.body.deep_view(), 127),
    {
        proof {
            lemma_keys();
        }
        ApiRequest {
            path: "/machine-config".to_owned(),
            body: Fields::new().with("vcpu_count", Json::UInt(vcpu_count as u64)).with(
                "mem_size_mib",
                Json::UInt(mem_size_mib),
            ).object(),
        }
    }

    /// Configures the boot source.
    pub fn set_boot_source(
        kernel_image_path: &str,
        boot_args: &str,
        initrd_path: Option<&str>,
    ) -> (r: ApiRequest)
        ensures
            r.deep_view() == boot_source_request(
                kernel_image_path@,
                boot_args@,
                initrd_path.deep_view(),
            ),
            is_plain(r.body.deep_view(), 127),
    {
        proof {
            lemma_keys();
        }
        let base: Fields = Fields::new().with("kernel_image_path", text(kernel_image_path)).with(
            "boot_args",
            text(boot_args),
        );
        let all: Fields = match initrd_path {
            Some(p) => base.with("initrd_path", text(p)),
            None => base,
        };
        ApiRequest { path: "/boot-source".to_owned(), body: all.object() }
    }

    /// Adds a block device.
    pub fn add_drive(
        drive_id: &str,
        path_on_host: &str,
        is_root_device: bool,
        is_read_only: bool,
    ) -> (r: ApiRequest)
        ensures
            r.deep_view() == drive_request(drive_id@, path_on_host@, is_root_device, is_read_only),
            is_plain(r.body.deep_view(), 127),
    {
        proof {
            lemma_keys();
        }
        ApiRequest {
            path: cat("/drives/", drive_id),
            body: Fields::new().with("drive_id", text(drive_id)).with(
                "path_on_host",
                text(path_on_host),
            ).with("is_root_device", Json::Bool(is_root_device)).with(
                "is_read_only",
                Json::Bool(is_read_only),
            ).object(),
        }
    }

    /// Configures the vsock device.
    pub fn set_vsock(guest_cid: u32, uds_path: &str) -> (r: ApiRequest)
        ensures
            r.deep_view() == vsock_request(guest_cid, uds_path@),
            is_plain(r.body.deep_view(), 127),
    {
        proof {
            lemma_keys();
        }
        ApiRequest {
            path: "/vsock".to_owned(),
            body: Fields::new().with("guest_cid", Json::UInt(guest_cid as u64)).with(
                "uds_path",
                text(uds_path),
            ).object(),
        }
    }

    /// Adds a network interface backed by a TAP device.
    pub fn add_network_interface(iface_id: &str, host_dev_name: &str) -> (r: ApiRequest)
        ensures
            r.deep_view() == interface_request(iface_id@, host_dev_name@),
            is_plain(r.body.deep_view(), 127),
    {
        proof {
            lemma_keys();
        }
        ApiRequest {
            path: cat("/network-interfaces/", iface_id),
            body: Fields::new().with("iface_id", text(iface_id)).with(
                "host_dev_name",
                text(host_dev_name),
            ).object(),
        }
    }

    /// Starts the VM instance.
    pub fn start_instance() -> (r: ApiRequest)
        ensures
            r.deep_view() == action_request("InstanceStart"@),
            is_plain(r.body.deep_view(), 127),
    {
        proof {
            lemma_keys();
        }
        ApiRequest {
            path: "/actions".to_owned(),
            body: Fields::new().with("action_type", text("InstanceStart")).object(),
        }
    }

    /// Sends Ctrl+Alt+Del to gracefully shut down the guest.
    pub fn send_ctrl_alt_del() -> (r: ApiRequest)
        ensures
            r.deep_view() == action_request("SendCtrlAltDel"@),
            is_plain(r.body.deep_view(), 127),
    {
        proof {
            lemma_keys();
        }
        ApiRequest {
            path: "/actions".to_owned(),
            body: Fields::new().with("action_type", text("SendCtrlAltDel")).object(),
        }
    }
}

/// The request that sets the machine's resources.
pub open spec fn machine_config_request(vcpus: u32, mem: u64) -> ApiRequestV {
    ApiRequestV {
        path: "/machine-config"@,
        body: JsonV::Object(
            map!["vcpu_count"@ => JsonV::UInt(vcpus as u64), "mem_size_mib"@ => JsonV::UInt(mem)],
        ),
    }
}

/// The request that sets the kernel and its arguments.
pub open spec fn boot_source_request(
    kernel: Seq<char>,
    args: Seq<char>,
    initrd: Option<Seq<char>>,
) -> ApiRequestV {
    let base = map!["kernel_image_path"@ => JsonV::Text(kernel), "boot_args"@ => JsonV::Text(args)];
    ApiRequestV {
        path: "/boot-source"@,
        body: JsonV::Object(
            match initrd {
                Some(p) => base.insert("initrd_path"@, JsonV::Text(p)),
                None => base,
            },
        ),
    }
}

/// The request that adds a block device.
pub open spec fn drive_request(
    id: Seq<char>,
    path: Seq<char>,
    root: bool,
    read_only: bool,
) -> ApiRequestV {
    ApiRequestV {
        path: "/drives/"@ + id,
        body: JsonV::Object(
            map![
                "drive_id"@ => JsonV::Text(id),
                "path_on_host"@ => JsonV::Text(path),
                "is_root_device"@ => JsonV::Bool(root),
                "is_read_only"@ => JsonV::Bool(read_only)
            ],
        ),
    }
}

/// The request that sets the vsock device.
pub open spec fn vsock_request(cid: u32, uds: Seq<char>) -> ApiRequestV {
    ApiRequestV {
        path: "/vsock"@,
        body: JsonV::Object(
            map!["guest_cid"@ => JsonV::UInt(cid as u64), "uds_path"@ => JsonV::Text(uds)],
        ),
    }
}

/// The request that adds a network interface.
pub open spec fn interface_request(id: Seq<char>, dev: Seq<char>) -> ApiRequestV {
    ApiRequestV {
        path: "/network-interfaces/"@ + id,
        body: JsonV::Object(
            map!["iface_id"@ => JsonV::Text(id), "host_dev_name"@ => JsonV::Text(dev)],
        ),
    }
}

/// The request that takes an action.
pub open spec fn action_request(action: Seq<char>) -> ApiRequestV {
    ApiRequestV {
        path: "/actions"@,
        body: JsonV::Object(map!["action_type"@ => JsonV::Text(action)]),
    }
}

/// A request says how many bytes its body has, which follows after an empty line.
pub proof fn law_request_counts_its_body(path: &str, body: &str, r: String)
    requires
        call_ensures(FcApiClient::put_request, (path, body), r),
    ensures
        exists|head: Seq<char>|
            r@ == #[trigger] ("PUT "@ + path@ + head) + decimal(encode_utf8(body@).len())
                + "\r\n\r\n"@ + body@,
{
    let head =
        " HTTP/1.1\r\nHost: localhost\r\nAccept: application/json\r\nContent-Type: application/json\r\nContent-Length: "@;
    assert(r@ == ("PUT "@ + path@ + head) + decimal(encode_utf8(body@).len()) + "\r\n\r\n"@
        + body@);
}

/// The status of a response is the second word of its first line, where that is a
/// number, and a fault of the server otherwise.
pub proof fn law_status_is_read(response: &str, n: nat, r: u16)
    requires
        call_ensures(FcApiClient::status, (response,), r),
        lines_of(response@).len() > 0,
        n <= u16::MAX,
    ensures
        words(lines_of(response@)[0]).len() > 1 && words(lines_of(response@)[0])[1] == decimal(n)
            ==> r == n,
        words(lines_of(response@)[0]).len() <= 1 ==> r == 500,
{
    law_decimal_is_read_back(n, 0xffff);
}

/// A request has succeeded exactly where the status is from 200 to 299; the result
/// is then the body, and otherwise says the status and the path.
pub proof fn law_success_is_by_status(
    path: &str,
    response: &str,
    status: u16,
    body: String,
    r: Result<String, String>,
)
    requires
        call_ensures(FcApiClient::status, (response,), status),
        call_ensures(FcApiClient::body, (response,), body),
        call_ensures(FcApiClient::put_result, (path, response), r),
    ensures
        r is Ok <==> 200 <= status <= 299,
        r matches Ok(b) ==> b@ == body@,
        r matches Err(e) ==> e@ == "Firecracker API error: HTTP "@ + decimal(status as nat)
            + " for PUT "@ + path@ + " \u{2014} "@ + trimmed(body@),
{
}

/// The requests that configure a machine name what they configure and carry what
/// they are given.
pub proof fn law_requests_carry_their_values(
    vcpus: u32,
    mem: u64,
    kernel: &str,
    args: &str,
    initrd: Option<&str>,
    id: &str,
    path: &str,
    root: bool,
    read_only: bool,
    cid: u32,
    machine: ApiRequest,
    boot: ApiRequest,
    drive: ApiRequest,
    vsock: ApiRequest,
    iface: ApiRequest,
)
    requires
        call_ensures(FcApiClient::set_machine_config, (vcpus, mem), machine),
        call_ensures(FcApiClient::set_boot_source, (kernel, args, initrd), boot),
        call_ensures(FcApiClient::add_drive, (id, path, root, read_only), drive),
        call_ensures(FcApiClient::set_vsock, (cid, path), vsock),
        call_ensures(FcApiClient::add_network_interface, (id, path), iface),
    ensures
        machine.path@ == "/machine-config"@,
        field(machine.body.deep_view(), "vcpu_count"@) == Some(JsonV::UInt(vcpus as u64)),
        field(machine.body.deep_view(), "mem_size_mib"@) == Some(JsonV::UInt(mem)),
        boot.path@ == "/boot-source"@,
        field(boot.body.deep_view(), "kernel_image_path"@) == Some(JsonV::Text(kernel@)),
        field(boot.body.deep_view(), "boot_args"@) == Some(JsonV::Text(args@)),
        initrd matches Some(i) ==> field(boot.body.deep_view(), "initrd_path"@) == Some(
            JsonV::Text(i@),
        ),
        initrd is None ==> field(boot.body.deep_view(), "initrd_path"@) is None,
        drive.path@ == "/drives/"@ + id@,
        field(drive.body.deep_view(), "drive_id"@) == Some(JsonV::Text(id@)),
        field(drive.body.deep_view(), "path_on_host"@) == Some(JsonV::Text(path@)),
        field(drive.body.deep_view(), "is_root_device"@) == Some(JsonV::Bool(root)),
        field(drive.body.deep_view(), "is_read_only"@) == Some(JsonV::Bool(read_only)),
        vsock.path@ == "/vsock"@,
        field(vsock.body.deep_view(), "guest_cid"@) == Some(JsonV::UInt(cid as u64)),
        field(vsock.body.deep_view(), "uds_path"@) == Some(JsonV::Text(path@)),
        iface.path@ == "/network-interfaces/"@ + id@,
        field(iface.body.deep_view(), "iface_id"@) == Some(JsonV::Text(id@)),
        field(iface.body.deep_view(), "host_dev_name"@) == Some(JsonV::Text(path@)),
{
    reveal_strlit("vcpu_count");
    reveal_strlit("mem_size_mib");
    reveal_strlit("kernel_image_path");
    reveal_strlit("boot_args");
    reveal_strlit("initrd_path");
    reveal_strlit("drive_id");
    reveal_strlit("path_on_host");
    reveal_strlit("is_root_device");
    reveal_strlit("is_read_only");
    reveal_strlit("guest_cid");
    reveal_strlit("uds_path");
    reveal_strlit("iface_id");
    reveal_strlit("host_dev_name");
    assert("vcpu_count"@.len() == 10 && "mem_size_mib"@.len() == 12);
    assert("kernel_image_path"@.len() == 17 && "boot_args"@.len() == 9 && "initrd_path"@.len()
        == 11);
    assert("drive_id"@.len() == 8 && "path_on_host"@.len() == 12 && "is_root_device"@.len() == 14
        && "is_read_only"@.len() == 12);
    assert("path_on_host"@[0] == 'p' && "is_read_only"@[0] == 'i');
    assert("guest_cid"@.len() == 9 && "uds_path"@.len() == 8);
    assert("iface_id"@.len() == 8 && "host_dev_name"@.len() == 13);
    assert(machine.deep_view() == machine_config_request(vcpus, mem));
    assert(boot.deep_view() == boot_source_request(kernel@, args@, initrd.deep_view()));
    assert(drive.deep_view() == drive_request(id@, path@, root, read_only));
    assert(vsock.deep_view() == vsock_request(cid, path@));
    assert(iface.deep_view() == interface_request(id@, path@));
}

/// A machine is started and asked to shut down by different actions.
pub proof fn law_actions_are_named(start: ApiRequest, stop: ApiRequest)
    requires
        call_ensures(FcApiClient::start_instance, (), start),
        call_ensures(FcApiClient::send_ctrl_alt_del, (), stop),
    ensures
        start.path@ == "/actions"@ && stop.path@ == "/actions"@,
        field(start.body.deep_view(), "action_type"@) == Some(JsonV::Text("InstanceStart"@)),
        field(stop.body.deep_view(), "action_type"@) == Some(JsonV::Text("SendCtrlAltDel"@)),
{
    assert(start.deep_view() == action_request("InstanceStart"@));
    assert(stop.deep_view() == action_request("SendCtrlAltDel"@));
}

} // verus!
