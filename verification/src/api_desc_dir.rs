//! The device-description model: the device tree with its services, and the
//! orchestration that feeds every service's schema through the binding
//! synthesizer in depth-first order.

use vstd::prelude::*;
use crate::api_desc::ApiDesc;
use crate::api_desc::ApiDescV;
use crate::api_desc::fill_result;
use crate::error::GenError;
use crate::error::GenErrorV;
use crate::output::OutputFiles;
use crate::output::OutputFilesV;
use crate::text::segments;
use crate::text::split_colon;
use crate::text::str_views;

verus! {

/// Spec view of `SpecVersion`.
pub struct SpecVersionV {
    pub major: u32,
    pub minor: u32,
}

/// The specification version a description document declares.
#[derive(Debug)]
pub struct SpecVersion {
    pub major: u32,
    pub minor: u32,
}

impl View for SpecVersion {
    type V = SpecVersionV;

    open spec fn view(&self) -> SpecVersionV {
        SpecVersionV { major: self.major, minor: self.minor }
    }
}

/// Spec view of `SystemVersion`.
pub struct SystemVersionV {
    pub hw: u32,
    pub major: u32,
    pub minor: u32,
    pub patch: u32,
    pub buildnumber: u32,
    pub display: Seq<char>,
}

/// The device's own firmware version information.
#[derive(Debug)]
pub struct SystemVersion {
    pub hw: u32,
    pub major: u32,
    pub minor: u32,
    pub patch: u32,
    pub buildnumber: u32,
    pub display: String,
}

impl View for SystemVersion {
    type V = SystemVersionV;

    open spec fn view(&self) -> SystemVersionV {
        SystemVersionV {
            hw: self.hw,
            major: self.major,
            minor: self.minor,
            patch: self.patch,
            buildnumber: self.buildnumber,
            display: self.display@,
        }
    }
}

/// Spec view of `Icon`.
pub struct IconV {
    pub mimetype: Seq<char>,
    pub width: u32,
    pub height: u32,
    pub depth: u32,
    pub url: Seq<char>,
}

/// One icon a device advertises.
#[derive(Debug)]
pub struct Icon {
    pub mimetype: String,
    pub width: u32,
    pub height: u32,
    pub depth: u32,
    pub url: String,
}

impl View for Icon {
    type V = IconV;

    open spec fn view(&self) -> IconV {
        IconV {
            mimetype: self.mimetype@,
            width: self.width,
            height: self.height,
            depth: self.depth,
            url: self.url@,
        }
    }
}

/// The icon list of a device.
#[derive(Debug)]
pub struct IconList {
    pub icon: Vec<Icon>,
}

/// Spec view of `Service`.
pub struct ServiceV {
    pub service_type: Seq<char>,
    pub service_id: Seq<char>,
    pub control_url: Seq<char>,
    pub event_sub_url: Seq<char>,
    pub scpd_url: Seq<char>,
}

/// One service a device offers: its colon-delimited type, its id, its
/// control and event-subscription addresses, and where its schema document
/// is fetched from.
#[derive(Debug)]
pub struct Service {
    pub service_type: String,
    pub service_id: String,
    pub control_url: String,
    pub event_sub_url: String,
    pub scpd_url: String,
}

impl View for Service {
    type V = ServiceV;

    open spec fn view(&self) -> ServiceV {
        ServiceV {
            service_type: self.service_type@,
            service_id: self.service_id@,
            control_url: self.control_url@,
            event_sub_url: self.event_sub_url@,
            scpd_url: self.scpd_url@,
        }
    }
}

/// The service list of a device.
#[derive(Debug)]
pub struct ServiceList {
    pub service: Vec<Service>,
}

/// The nested child devices of a device.
#[derive(Debug)]
pub struct DeviceList {
    pub device: Vec<Device>,
}

/// One device of the description document: its metadata, its services, and
/// its nested child devices.
#[derive(Debug)]
pub struct Device {
    pub device_type: String,
    pub friendly_name: String,
    pub manufacturer: String,
    pub manufacturer_url: String,
    pub model_description: String,
    pub model_name: String,
    pub model_number: String,
    pub model_url: String,
    pub udn: String,
    pub upc: String,
    pub icon_list: IconList,
    pub service_list: ServiceList,
    pub device_list: DeviceList,
    pub presentation_url: String,
}

/// One parsed device-description document: versions and the root device.
#[derive(Debug)]
pub struct ApiDescDir {
    pub spec_version: SpecVersion,
    pub system_version: SystemVersion,
    pub device: Device,
}

/// The views of a vector of services.
pub open spec fn service_views(s: Seq<Service>) -> Seq<ServiceV> {
    s.map_values(|x: Service| x@)
}

/// Every service of a device and of its nested child devices, in depth-first
/// order: the device's own services first, then each child subtree in turn.
pub open spec fn device_services(d: Device) -> Seq<ServiceV>
    decreases d, 0int, 0int,
    via device_services_dec
{
    service_views(d.service_list.service@) + children_services(d.device_list.device@, 0)
}

/// The services of the child subtrees of `cs`, from child `i` on.
pub open spec fn children_services(cs: Seq<Device>, i: int) -> Seq<ServiceV>
    decreases cs, 1int, cs.len() - i,
{
    if i < 0 || i >= cs.len() {
        Seq::empty()
    } else {
        device_services(cs[i]) + children_services(cs, i + 1)
    }
}

#[via_fn]
proof fn device_services_dec(d: Device) {
    broadcast use vstd::std_specs::vec::group_vec_axioms;

    assert(decreases_to!(d => d.device_list.device@));
}

/// Clones one service.
fn duplicate_service(s: &Service) -> (r: Service)
    ensures
        r@ == s@,
{
    Service {
        service_type: s.service_type.clone(),
        service_id: s.service_id.clone(),
        control_url: s.control_url.clone(),
        event_sub_url: s.event_sub_url.clone(),
        scpd_url: s.scpd_url.clone(),
    }
}

/// Appends every service of `device` and of its nested child devices to
/// `out`, in depth-first order: the device's own services first, then each
/// child subtree in turn. Each device of the tree is visited exactly once.
fn collect_device_services(device: &Device, out: &mut Vec<Service>)
    ensures
        service_views(final(out)@) == service_views(old(out)@) + device_services(*device),
    decreases *device,
{
    let ghost base = service_views(old(out)@);
    let svs = &device.service_list.service;
    let mut i: usize = 0;
    proof {
        assert(service_views(svs@.take(0)) =~= Seq::<ServiceV>::empty());
        assert(base + Seq::<ServiceV>::empty() =~= base);
    }
    while i < svs.len()
        invariant
            i <= svs@.len(),
            svs@ == device.service_list.service@,
            service_views(out@) == base + service_views(svs@.take(i as int)),
            base == service_views(old(out)@),
        decreases svs@.len() - i,
    {
        let s = duplicate_service(&svs[i]);
        out.push(s);
        proof {
            assert(svs@.take(i + 1) =~= svs@.take(i as int).push(svs@[i as int]));
            assert(service_views(svs@.take(i as int).push(svs@[i as int])) =~= service_views(
                svs@.take(i as int),
            ).push(svs@[i as int]@));
            assert(service_views(out@) =~= (base + service_views(svs@.take(i as int))).push(
                svs@[i as int]@,
            ));
            assert((base + service_views(svs@.take(i as int))).push(svs@[i as int]@) =~= base
                + service_views(svs@.take(i as int)).push(svs@[i as int]@));
        }
        i = i + 1;
    }
    proof {
        assert(svs@.take(svs@.len() as int) =~= svs@);
    }
    let ch = &device.device_list.device;
    let mut j: usize = 0;
    proof {
        assert((base + service_views(svs@)) + children_services(ch@, 0) =~= base + (service_views(
            svs@,
        ) + children_services(ch@, 0)));
    }
    while j < ch.len()
        invariant
            j <= ch@.len(),
            ch@ == device.device_list.device@,
            service_views(out@) + children_services(ch@, j as int) == base + device_services(
                *device,
            ),
            base == service_views(old(out)@),
        decreases ch@.len() - j,
    {
        proof {
            broadcast use vstd::std_specs::vec::group_vec_axioms;

            assert(decreases_to!(*device => device.device_list.device@[j as int]));
        }
        let ghost out_before = service_views(out@);
        collect_device_services(&ch[j], out);
        proof {
            assert(children_services(ch@, j as int) == device_services(ch@[j as int])
                + children_services(ch@, j + 1));
            assert((out_before + device_services(ch@[j as int])) + children_services(ch@, j + 1)
                =~= out_before + (device_services(ch@[j as int]) + children_services(
                ch@,
                j + 1,
            )));
        }
        j = j + 1;
    }
    proof {
        assert(children_services(ch@, ch@.len() as int) =~= Seq::<ServiceV>::empty());
        assert(service_views(out@) + Seq::<ServiceV>::empty() =~= service_views(out@));
    }
}

/// The views of a vector of parsed schemas.
pub open spec fn api_views(s: Seq<ApiDesc>) -> Seq<ApiDescV> {
    s.map_values(|a: ApiDesc| a@)
}

/// The module prefix a caller's choice yields: the given prefix with a
/// trailing underscore, or nothing.
pub open spec fn prefix_text(prefix: Option<Seq<char>>) -> Seq<char> {
    match prefix {
        Some(p) => p + "_"@,
        None => Seq::empty(),
    }
}

/// The empty output aggregate a generation run starts from: both output
/// folders live under one output root and carry the prefix.
pub open spec fn initial_output(
    resp_folder: Seq<char>,
    req_folder: Seq<char>,
    pfx: Seq<char>,
) -> OutputFilesV {
    OutputFilesV {
        annotation_string: Seq::empty(),
        response_files: Seq::empty(),
        request_files: Seq::empty(),
        response_output_folder: "output/"@ + pfx + resp_folder,
        request_output_folder: "output/"@ + pfx + req_folder,
        prefix: pfx,
    }
}

/// Feeds service `i` and all later ones through the synthesizer, each named
/// from the fourth segment of its service type, failing fast on the first
/// error.
pub open spec fn gen_services(
    o: OutputFilesV,
    svs: Seq<ServiceV>,
    schemas: Seq<ApiDescV>,
    i: int,
) -> Result<OutputFilesV, GenErrorV>
    decreases svs.len() - i,
{
    if i < 0 || i >= svs.len() {
        Ok(o)
    } else {
        match fill_result(
            o,
            schemas[i],
            segments(svs[i].service_type)[3],
            svs[i].control_url,
            svs[i].service_type,
        ) {
            Err(e) => Err(e),
            Ok(o2) => gen_services(o2, svs, schemas, i + 1),
        }
    }
}

impl ApiDescDir {
    /// Generates the request and response binding modules of every service
    /// of this description document, one parsed schema per service in
    /// depth-first order. Succeeds with the filled output aggregate, or
    /// fails fast with the first service's error, as `gen_services` says.
    pub fn generate_files(
        &self,
        schemas: &Vec<ApiDesc>,
        responses_output_folder: String,
        request_output_folder: String,
        prefix: Option<String>,
    ) -> (r: Result<OutputFiles, GenError>)
        requires
            schemas@.len() == device_services(self.device).len(),
        ensures
            ({
                let o0 = initial_output(
                    responses_output_folder@,
                    request_output_folder@,
                    prefix_text(
                        match prefix {
                            Some(p) => Some(p@),
                            None => None,
                        },
                    ),
                );
                match r {
                    Ok(out) => gen_services(
                        o0,
                        device_services(self.device),
                        api_views(schemas@),
                        0,
                    ) == Ok::<OutputFilesV, GenErrorV>(out@),
                    Err(e) => gen_services(
                        o0,
                        device_services(self.device),
                        api_views(schemas@),
                        0,
                    ) == Err::<OutputFilesV, GenErrorV>(e@),
                }
            }),
    {
        let ghost svs = device_services(self.device);
        let ghost schv = api_views(schemas@);
        let ghost pfx = prefix_text(
            match &prefix {
                Some(p) => Some(p@),
                None => None,
            },
        );
        let ghost o0 = initial_output(responses_output_folder@, request_output_folder@, pfx);
        let mut output_files = OutputFiles::new();
        let prefix_str = match &prefix {
            Some(p) => {
                let mut q = p.clone();
                q.append("_");
                q
            },
            None => String::new(),
        };
        proof {
            assert(prefix_str@ == pfx);
        }
        let mut resp_folder = String::from_str("output/");
        resp_folder.append(prefix_str.as_str());
        resp_folder.append(responses_output_folder.as_str());
        let mut req_folder = String::from_str("output/");
        req_folder.append(prefix_str.as_str());
        req_folder.append(request_output_folder.as_str());
        output_files.response_output_folder = resp_folder;
        output_files.request_output_folder = req_folder;
        output_files.prefix = prefix_str;
        proof {
            assert(output_files@.annotation_string =~= o0.annotation_string);
            assert(output_files@.response_files =~= o0.response_files);
            assert(output_files@.request_files =~= o0.request_files);
            assert(output_files@ == o0);
        }
        let services = self.collect_services();
        let mut i: usize = 0;
        while i < services.len()
            invariant
                i <= services@.len(),
                svs == device_services(self.device),
                schv == api_views(schemas@),
                service_views(services@) == svs,
                svs.len() == services@.len(),
                schemas@.len() == svs.len(),
                schv.len() == schemas@.len(),
                o0 == initial_output(
                    responses_output_folder@,
                    request_output_folder@,
                    prefix_text(
                        match &prefix {
                            Some(p) => Some(p@),
                            None => None,
                        },
                    ),
                ),
                gen_services(o0, svs, schv, 0) == gen_services(output_files@, svs, schv, i as int),
            decreases services@.len() - i,
        {
            let service = &services[i];
            proof {
                assert(service@ == svs[i as int]);
            }
            let parts = split_colon(service.service_type.as_str());
            proof {
                assert(str_views(parts@).len() == segments(svs[i as int].service_type).len());
            }
            if parts.len() < 4 {
                proof {
                    assert(gen_services(output_files@, svs, schv, i as int)
                        == Err::<OutputFilesV, GenErrorV>(
                        GenErrorV::MalformedServiceType(svs[i as int].service_type),
                    ));
                }
                return Err(GenError::MalformedServiceType(service.service_type.clone()));
            }
            let name = &parts[3];
            proof {
                assert(name@ == str_views(parts@)[3]);
                assert(name@ == segments(svs[i as int].service_type)[3]);
                assert(schemas@[i as int]@ == schv[i as int]);
            }
            let ghost out_before = output_files@;
            match schemas[i].fill_output_files(
                &mut output_files,
                name.as_str(),
                service.control_url.as_str(),
                service.service_type.as_str(),
            ) {
                Ok(_) => {
                    proof {
                        assert(fill_result(
                            out_before,
                            schv[i as int],
                            segments(svs[i as int].service_type)[3],
                            svs[i as int].control_url,
                            svs[i as int].service_type,
                        ) == Ok::<OutputFilesV, GenErrorV>(output_files@));
                        assert(gen_services(out_before, svs, schv, i as int) == gen_services(
                            output_files@,
                            svs,
                            schv,
                            i + 1,
                        ));
                    }
                },
                Err(e) => {
                    proof {
                        assert(gen_services(out_before, svs, schv, i as int) == Err::<
                            OutputFilesV,
                            GenErrorV,
                        >(e@));
                    }
                    return Err(e);
                },
            }
            i = i + 1;
        }
        proof {
            assert(gen_services(output_files@, svs, schv, svs.len() as int) == Ok::<
                OutputFilesV,
                GenErrorV,
            >(output_files@));
        }
        Ok(output_files)
    }

    /// Every service of the root device and of its nested devices, in the
    /// depth-first order generation processes them.
    pub fn collect_services(&self) -> (r: Vec<Service>)
        ensures
            service_views(r@) == device_services(self.device),
    {
        let mut out: Vec<Service> = Vec::new();
        proof {
            assert(service_views(out@) =~= Seq::<ServiceV>::empty());
        }
        collect_device_services(&self.device, &mut out);
        proof {
            assert(Seq::<ServiceV>::empty() + device_services(self.device) =~= device_services(
                self.device,
            ));
        }
        out
    }
}

} // verus!
