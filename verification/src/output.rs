//! The synthesized binding descriptors: response files, request files with
//! their request functions, and the shared output aggregate, together with
//! the exact text each of them renders to.

use vstd::prelude::*;
use crate::error::GenError;
use crate::error::GenErrorV;
use crate::text::join_all;
use crate::text::join_strings;
use crate::text::segments;
use crate::text::sorted_dedup;
use crate::text::sorted_dedup_strings;
use crate::text::split_colon;
use crate::text::str_eq;
use crate::text::str_views;

verus! {

/// Spec view of `ParameterAndType`.
pub struct ParameterAndTypeV {
    pub parameter_name: Seq<char>,
    pub parameter_name_rusty: Seq<char>,
    pub param_type: Seq<char>,
}

/// One parameter of a request function: its wire name, its normalized name,
/// and its resolved primitive type.
#[derive(Debug)]
pub struct ParameterAndType {
    pub parameter_name: String,
    pub parameter_name_rusty: String,
    pub param_type: String,
}

impl View for ParameterAndType {
    type V = ParameterAndTypeV;

    open spec fn view(&self) -> ParameterAndTypeV {
        ParameterAndTypeV {
            parameter_name: self.parameter_name@,
            parameter_name_rusty: self.parameter_name_rusty@,
            param_type: self.param_type@,
        }
    }
}

impl ParameterAndType {
    /// An empty parameter, to be filled field by field.
    pub fn new() -> (r: Self)
        ensures
            r@.parameter_name == Seq::<char>::empty(),
            r@.parameter_name_rusty == Seq::<char>::empty(),
            r@.param_type == Seq::<char>::empty(),
    {
        ParameterAndType {
            parameter_name: String::new(),
            parameter_name_rusty: String::new(),
            param_type: String::new(),
        }
    }
}

/// Spec view of `RequestFunction`.
pub struct RequestFunctionV {
    pub name: Seq<char>,
    pub name_rusty: Seq<char>,
    pub parameter: Seq<ParameterAndTypeV>,
    pub service_type: Seq<char>,
    pub action_name: Seq<char>,
    pub control_url: Seq<char>,
}

/// One request-construction function: the remote action's wire name, its
/// normalized name, its parameters, and the service coordinates the request
/// must carry.
#[derive(Debug)]
pub struct RequestFunction {
    pub name: String,
    pub name_rusty: String,
    pub parameter: Vec<ParameterAndType>,
    pub service_type: String,
    pub action_name: String,
    pub control_url: String,
}

impl View for RequestFunction {
    type V = RequestFunctionV;

    open spec fn view(&self) -> RequestFunctionV {
        RequestFunctionV {
            name: self.name@,
            name_rusty: self.name_rusty@,
            parameter: self.parameter@.map_values(|p: ParameterAndType| p@),
            service_type: self.service_type@,
            action_name: self.action_name@,
            control_url: self.control_url@,
        }
    }
}

/// Spec view of `RequestFile`.
pub struct RequestFileV {
    pub name: Seq<char>,
    pub request_functions: Seq<RequestFunctionV>,
}

/// One request-binding module: its normalized name and its functions.
#[derive(Debug)]
pub struct RequestFile {
    pub name: String,
    pub request_functions: Vec<RequestFunction>,
}

impl View for RequestFile {
    type V = RequestFileV;

    open spec fn view(&self) -> RequestFileV {
        RequestFileV {
            name: self.name@,
            request_functions: self.request_functions@.map_values(|f: RequestFunction| f@),
        }
    }
}

impl RequestFile {
    /// An empty request-binding module.
    pub fn new() -> (r: Self)
        ensures
            r@.name == Seq::<char>::empty(),
            r@.request_functions == Seq::<RequestFunctionV>::empty(),
    {
        let r = RequestFile { name: String::new(), request_functions: Vec::new() };
        proof {
            assert(r@.request_functions =~= Seq::<RequestFunctionV>::empty());
        }
        r
    }
}

/// Spec view of `ResponseFile`.
pub struct ResponseFileV {
    pub name: Seq<char>,
    pub content: Seq<Seq<char>>,
}

/// One response-binding module: its normalized name and its content pieces,
/// joined on rendering.
#[derive(Debug)]
pub struct ResponseFile {
    pub name: String,
    pub content: Vec<String>,
}

impl View for ResponseFile {
    type V = ResponseFileV;

    open spec fn view(&self) -> ResponseFileV {
        ResponseFileV { name: self.name@, content: str_views(self.content@) }
    }
}

impl ResponseFile {
    /// An empty response-binding module.
    pub fn new() -> (r: Self)
        ensures
            r@.name == Seq::<char>::empty(),
            r@.content == Seq::<Seq<char>>::empty(),
    {
        let r = ResponseFile { name: String::new(), content: Vec::new() };
        proof {
            assert(r@.content =~= Seq::<Seq<char>>::empty());
        }
        r
    }
}

impl RequestFunction {
    /// An empty request function, to be filled field by field.
    pub fn new() -> (r: Self)
        ensures
            r@.name == Seq::<char>::empty(),
            r@.name_rusty == Seq::<char>::empty(),
            r@.parameter == Seq::<ParameterAndTypeV>::empty(),
            r@.service_type == Seq::<char>::empty(),
            r@.action_name == Seq::<char>::empty(),
            r@.control_url == Seq::<char>::empty(),
    {
        let r = RequestFunction {
            name: String::new(),
            name_rusty: String::new(),
            parameter: Vec::new(),
            service_type: String::new(),
            action_name: String::new(),
            control_url: String::new(),
        };
        proof {
            assert(r@.parameter =~= Seq::<ParameterAndTypeV>::empty());
        }
        r
    }
}

/// The signature text of one parameter: text-typed parameters are passed as
/// string views, all others by reference.
pub open spec fn sig_piece(p: ParameterAndTypeV) -> Seq<char> {
    if p.param_type == "String"@ {
        p.parameter_name_rusty + ": &str,"@
    } else {
        p.parameter_name_rusty + ": &"@ + p.param_type + ","@
    }
}

/// The signature text of a parameter list, in order.
pub open spec fn params_sig(ps: Seq<ParameterAndTypeV>) -> Seq<char>
    decreases ps.len(),
{
    if ps.len() == 0 {
        Seq::empty()
    } else {
        sig_piece(ps[0]) + params_sig(ps.skip(1))
    }
}

/// The request-payload template text of a parameter list: one wire tag per
/// parameter wrapping a substitution slot.
pub open spec fn params_body(ps: Seq<ParameterAndTypeV>) -> Seq<char>
    decreases ps.len(),
{
    if ps.len() == 0 {
        Seq::empty()
    } else {
        ("<"@ + ps[0].parameter_name + ">{}</"@ + ps[0].parameter_name + ">"@) + params_body(
            ps.skip(1),
        )
    }
}

/// The substitution-argument text of a parameter list: one leading comma and
/// normalized name per parameter.
pub open spec fn params_code(ps: Seq<ParameterAndTypeV>) -> Seq<char>
    decreases ps.len(),
{
    if ps.len() == 0 {
        Seq::empty()
    } else {
        (","@ + ps[0].parameter_name_rusty) + params_code(ps.skip(1))
    }
}

/// The full source text of one request function: signature, resource path,
/// composed action reference, and request payload template.
pub open spec fn function_text(f: RequestFunctionV) -> Seq<char> {
    let segs = segments(f.service_type);
    "pub fn generate_"@ + f.name_rusty + "_request("@ + params_sig(f.parameter)
        + " id: Option<&str>) -> (String, String, String){ \n\tlet id = id.unwrap_or(\"1\");\n"@
        + "\tlet uri = \""@ + f.control_url + "\";\n"@ + "\tlet header = format!(\""@ + segs[0]
        + ":"@ + segs[1] + ":"@ + segs[2] + ":"@ + segs[3] + ":{}#"@ + f.action_name
        + "\", id);\n"@
        + "\tlet body = format!(\"<?xml version=\\\"1.0\\\"?><s:Envelope xmlns:s=\\\"http://schemas.xmlsoap.org/soap/envelope/\\\"s:encodingStyle=\\\"http://schemas.xmlsoap.org/soap/encoding/\\\"><s:Body><u:"@
        + f.action_name + " xmlns:u=\\\""@ + segs[0] + ":"@ + segs[1] + ":"@ + segs[2] + ":"@
        + segs[3] + ":{}\\\">"@ + params_body(f.parameter) + "</u:"@ + f.action_name
        + "></s:Body></s:Envelope>\",id "@ + params_code(f.parameter) + ");\n"@
        + "\t(uri.to_string(), header, body) \n}\n"@
}

impl RequestFunction {
    /// The signature text of this function's parameters.
    pub fn parameter_for_function(&self) -> (r: String)
        ensures
            r@ == params_sig(self@.parameter),
    {
        let ghost ps = self@.parameter;
        let mut r = String::new();
        if self.parameter.is_empty() {
            return r;
        }
        let mut i: usize = 0;
        proof {
            assert(ps.skip(0) =~= ps);
            assert(r@ + params_sig(ps) =~= params_sig(ps));
        }
        while i < self.parameter.len()
            invariant
                i <= self.parameter@.len(),
                ps == self@.parameter,
                ps.len() == self.parameter@.len(),
                r@ + params_sig(ps.skip(i as int)) == params_sig(ps),
            decreases self.parameter@.len() - i,
        {
            let ghost r_before = r@;
            proof {
                assert(ps.skip(i as int)[0] == ps[i as int]);
                assert(ps.skip(i as int).skip(1) =~= ps.skip(i + 1));
            }
            let p = &self.parameter[i];
            if str_eq(p.param_type.as_str(), "String") {
                r.append(p.parameter_name_rusty.as_str());
                r.append(": &str,");
            } else {
                r.append(p.parameter_name_rusty.as_str());
                r.append(": &");
                r.append(p.param_type.as_str());
                r.append(",");
            }
            proof {
                assert(r@ =~= r_before + sig_piece(ps[i as int]));
                assert((r_before + sig_piece(ps[i as int])) + params_sig(ps.skip(i + 1))
                    =~= r_before + (sig_piece(ps[i as int]) + params_sig(ps.skip(i + 1))));
            }
            i = i + 1;
        }
        proof {
            assert(params_sig(ps.skip(ps.len() as int)) =~= Seq::<char>::empty());
            assert(r@ + Seq::<char>::empty() =~= r@);
        }
        r
    }

    /// The request-payload template text of this function's parameters.
    pub fn parameter_for_body(&self) -> (r: String)
        ensures
            r@ == params_body(self@.parameter),
    {
        let ghost ps = self@.parameter;
        let mut r = String::new();
        let mut i: usize = 0;
        proof {
            assert(ps.skip(0) =~= ps);
            assert(r@ + params_body(ps) =~= params_body(ps));
        }
        while i < self.parameter.len()
            invariant
                i <= self.parameter@.len(),
                ps == self@.parameter,
                ps.len() == self.parameter@.len(),
                r@ + params_body(ps.skip(i as int)) == params_body(ps),
            decreases self.parameter@.len() - i,
        {
            let ghost r_before = r@;
            proof {
                assert(ps.skip(i as int)[0] == ps[i as int]);
                assert(ps.skip(i as int).skip(1) =~= ps.skip(i + 1));
            }
            let p = &self.parameter[i];
            r.append("<");
            r.append(p.parameter_name.as_str());
            r.append(">{}</");
            r.append(p.parameter_name.as_str());
            r.append(">");
            proof {
                let piece = "<"@ + ps[i as int].parameter_name + ">{}</"@
                    + ps[i as int].parameter_name + ">"@;
                assert(r@ =~= r_before + piece);
                assert((r_before + piece) + params_body(ps.skip(i + 1)) =~= r_before + (piece
                    + params_body(ps.skip(i + 1))));
            }
            i = i + 1;
        }
        proof {
            assert(params_body(ps.skip(ps.len() as int)) =~= Seq::<char>::empty());
            assert(r@ + Seq::<char>::empty() =~= r@);
        }
        r
    }

    /// The substitution-argument text of this function's parameters.
    pub fn parameter_for_code(&self) -> (r: String)
        ensures
            r@ == params_code(self@.parameter),
    {
        let ghost ps = self@.parameter;
        let mut r = String::new();
        let mut i: usize = 0;
        proof {
            assert(ps.skip(0) =~= ps);
            assert(r@ + params_code(ps) =~= params_code(ps));
        }
        while i < self.parameter.len()
            invariant
                i <= self.parameter@.len(),
                ps == self@.parameter,
                ps.len() == self.parameter@.len(),
                r@ + params_code(ps.skip(i as int)) == params_code(ps),
            decreases self.parameter@.len() - i,
        {
            let ghost r_before = r@;
            proof {
                assert(ps.skip(i as int)[0] == ps[i as int]);
                assert(ps.skip(i as int).skip(1) =~= ps.skip(i + 1));
            }
            let p = &self.parameter[i];
            r.append(",");
            r.append(p.parameter_name_rusty.as_str());
            proof {
                let piece = ","@ + ps[i as int].parameter_name_rusty;
                assert(r@ =~= r_before + piece);
                assert((r_before + piece) + params_code(ps.skip(i + 1)) =~= r_before + (piece
                    + params_code(ps.skip(i + 1))));
            }
            i = i + 1;
        }
        proof {
            assert(params_code(ps.skip(ps.len() as int)) =~= Seq::<char>::empty());
            assert(r@ + Seq::<char>::empty() =~= r@);
        }
        r
    }

    /// The full source text of this request function.
    pub fn create_function(&self) -> (r: String)
        requires
            segments(self@.service_type).len() >= 4,
        ensures
            r@ == function_text(self@),
    {
        let parts = split_colon(self.service_type.as_str());
        proof {
            assert(parts@.len() == str_views(parts@).len());
            assert(str_views(parts@)[0] == parts@[0]@);
            assert(str_views(parts@)[1] == parts@[1]@);
            assert(str_views(parts@)[2] == parts@[2]@);
            assert(str_views(parts@)[3] == parts@[3]@);
        }
        let sig = self.parameter_for_function();
        let body_params = self.parameter_for_body();
        let code_params = self.parameter_for_code();
        let mut r = String::from_str("pub fn generate_");
        r.append(self.name_rusty.as_str());
        r.append("_request(");
        r.append(sig.as_str());
        r.append(" id: Option<&str>) -> (String, String, String){ \n\tlet id = id.unwrap_or(\"1\");\n");
        r.append("\tlet uri = \"");
        r.append(self.control_url.as_str());
        r.append("\";\n");
        r.append("\tlet header = format!(\"");
        r.append(parts[0].as_str());
        r.append(":");
        r.append(parts[1].as_str());
        r.append(":");
        r.append(parts[2].as_str());
        r.append(":");
        r.append(parts[3].as_str());
        r.append(":{}#");
        r.append(self.action_name.as_str());
        r.append("\", id);\n");
        r.append("\tlet body = format!(\"<?xml version=\\\"1.0\\\"?><s:Envelope xmlns:s=\\\"http://schemas.xmlsoap.org/soap/envelope/\\\"s:encodingStyle=\\\"http://schemas.xmlsoap.org/soap/encoding/\\\"><s:Body><u:");
        r.append(self.action_name.as_str());
        r.append(" xmlns:u=\\\"");
        r.append(parts[0].as_str());
        r.append(":");
        r.append(parts[1].as_str());
        r.append(":");
        r.append(parts[2].as_str());
        r.append(":");
        r.append(parts[3].as_str());
        r.append(":{}\\\">");
        r.append(body_params.as_str());
        r.append("</u:");
        r.append(self.action_name.as_str());
        r.append("></s:Body></s:Envelope>\",id ");
        r.append(code_params.as_str());
        r.append(");\n");
        r.append("\t(uri.to_string(), header, body) \n}\n");
        r
    }
}

/// Spec view of `OutputFiles`.
pub struct OutputFilesV {
    pub annotation_string: Seq<Seq<char>>,
    pub response_files: Seq<ResponseFileV>,
    pub request_files: Seq<RequestFileV>,
    pub response_output_folder: Seq<char>,
    pub request_output_folder: Seq<char>,
    pub prefix: Seq<char>,
}

/// The output aggregate of one generation run: envelope annotations, all
/// response and request modules, the two output folders and the module
/// prefix.
#[derive(Debug)]
pub struct OutputFiles {
    pub annotation_string: Vec<String>,
    pub response_files: Vec<ResponseFile>,
    pub request_files: Vec<RequestFile>,
    pub response_output_folder: String,
    pub request_output_folder: String,
    pub prefix: String,
}

impl View for OutputFiles {
    type V = OutputFilesV;

    open spec fn view(&self) -> OutputFilesV {
        OutputFilesV {
            annotation_string: str_views(self.annotation_string@),
            response_files: self.response_files@.map_values(|f: ResponseFile| f@),
            request_files: self.request_files@.map_values(|f: RequestFile| f@),
            response_output_folder: self.response_output_folder@,
            request_output_folder: self.request_output_folder@,
            prefix: self.prefix@,
        }
    }
}

impl OutputFiles {
    /// An empty aggregate with the default output folders and no prefix.
    pub fn new() -> (r: Self)
        ensures
            r@.annotation_string == Seq::<Seq<char>>::empty(),
            r@.response_files == Seq::<ResponseFileV>::empty(),
            r@.request_files == Seq::<RequestFileV>::empty(),
            r@.response_output_folder == "response_output"@,
            r@.request_output_folder == "request_output"@,
            r@.prefix == Seq::<char>::empty(),
    {
        let r = OutputFiles {
            annotation_string: Vec::new(),
            response_files: Vec::new(),
            request_files: Vec::new(),
            response_output_folder: String::from_str("response_output"),
            request_output_folder: String::from_str("request_output"),
            prefix: String::new(),
        };
        proof {
            assert(r@.annotation_string =~= Seq::<Seq<char>>::empty());
            assert(r@.response_files =~= Seq::<ResponseFileV>::empty());
            assert(r@.request_files =~= Seq::<RequestFileV>::empty());
        }
        r
    }
}

/// Every stored request function carries a service type of at least four
/// colon-delimited segments, so its text can be rendered.
pub open spec fn files_wf(o: OutputFilesV) -> bool {
    forall|i: int, j: int|
        0 <= i < o.request_files.len() && 0 <= j
            < (#[trigger] o.request_files[i]).request_functions.len() ==> segments(
            (#[trigger] o.request_files[i].request_functions[j]).service_type,
        ).len() >= 4
}

/// Spec view of `RenderedFile`.
pub struct RenderedFileV {
    pub path: Seq<char>,
    pub content: Seq<char>,
}

/// One rendered output artifact: a file path and its whole text.
#[derive(Debug)]
pub struct RenderedFile {
    pub path: String,
    pub content: String,
}

impl View for RenderedFile {
    type V = RenderedFileV;

    open spec fn view(&self) -> RenderedFileV {
        RenderedFileV { path: self.path@, content: self.content@ }
    }
}

/// Spec view of `RenderedOutput`.
pub struct RenderedOutputV {
    pub response_output_folder: Seq<char>,
    pub request_output_folder: Seq<char>,
    pub files: Seq<RenderedFileV>,
}

/// Everything one generation run writes: the two folders to create and the
/// files to fill.
#[derive(Debug)]
pub struct RenderedOutput {
    pub response_output_folder: String,
    pub request_output_folder: String,
    pub files: Vec<RenderedFile>,
}

impl View for RenderedOutput {
    type V = RenderedOutputV;

    open spec fn view(&self) -> RenderedOutputV {
        RenderedOutputV {
            response_output_folder: self.response_output_folder@,
            request_output_folder: self.request_output_folder@,
            files: self.files@.map_values(|f: RenderedFile| f@),
        }
    }
}

/// The views of a vector of rendered files.
pub open spec fn rf_views(s: Seq<RenderedFile>) -> Seq<RenderedFileV> {
    s.map_values(|f: RenderedFile| f@)
}

/// The text of the shared envelope module: a generic decoding wrapper that
/// accepts every registered response shape by its name-based discriminant.
pub open spec fn annotation_content(anns: Seq<Seq<char>>) -> Seq<char> {
    "#[derive(Deserialize, Debug)]\npub struct Envelope<T> {\n\t#[serde(rename = \"Body\")]\n\tpub body: Body<T>,\n}\n\n#[derive(Deserialize, Debug)]\npub struct Body<T> { "@
        + join_all(anns) + "\n\tpub response: T,\n}"@
}

/// One line of a module index.
pub open spec fn mod_line(prefix: Seq<char>, name: Seq<char>) -> Seq<char> {
    "pub mod "@ + prefix + name + ";\n"@
}

/// The module-index lines of the response modules, in source order.
pub open spec fn resp_mod_lines(prefix: Seq<char>, fs: Seq<ResponseFileV>) -> Seq<Seq<char>>
    decreases fs.len(),
{
    if fs.len() == 0 {
        Seq::empty()
    } else {
        seq![mod_line(prefix, fs[0].name)] + resp_mod_lines(prefix, fs.skip(1))
    }
}

/// The module-index lines of the request modules, in source order.
pub open spec fn req_mod_lines(prefix: Seq<char>, fs: Seq<RequestFileV>) -> Seq<Seq<char>>
    decreases fs.len(),
{
    if fs.len() == 0 {
        Seq::empty()
    } else {
        seq![mod_line(prefix, fs[0].name)] + req_mod_lines(prefix, fs.skip(1))
    }
}

/// The concatenated text of a request module's functions.
pub open spec fn functions_text(fs: Seq<RequestFunctionV>) -> Seq<char>
    decreases fs.len(),
{
    if fs.len() == 0 {
        Seq::empty()
    } else {
        function_text(fs[0]) + functions_text(fs.skip(1))
    }
}

/// The path of a generated module file.
pub open spec fn file_path(folder: Seq<char>, prefix: Seq<char>, name: Seq<char>) -> Seq<char> {
    folder + "/"@ + prefix + name + ".rs"@
}

/// The rendered request modules, in source order.
pub open spec fn rendered_request_files(o: OutputFilesV, fs: Seq<RequestFileV>) -> Seq<
    RenderedFileV,
>
    decreases fs.len(),
{
    if fs.len() == 0 {
        Seq::empty()
    } else {
        seq![
            RenderedFileV {
                path: file_path(o.request_output_folder, o.prefix, fs[0].name),
                content: functions_text(fs[0].request_functions),
            },
        ] + rendered_request_files(o, fs.skip(1))
    }
}

/// The rendered response modules, in source order.
pub open spec fn rendered_response_files(o: OutputFilesV, fs: Seq<ResponseFileV>) -> Seq<
    RenderedFileV,
>
    decreases fs.len(),
{
    if fs.len() == 0 {
        Seq::empty()
    } else {
        seq![
            RenderedFileV {
                path: file_path(o.response_output_folder, o.prefix, fs[0].name),
                content: join_all(fs[0].content),
            },
        ] + rendered_response_files(o, fs.skip(1))
    }
}

/// The rendered envelope module.
pub open spec fn rendered_annotation_file(o: OutputFilesV) -> RenderedFileV {
    RenderedFileV {
        path: o.response_output_folder + "/"@ + o.prefix + "multi_use.rs"@,
        content: annotation_content(o.annotation_string),
    }
}

/// The rendered response-module index: sorted and deduplicated, with the
/// envelope module's line always present.
pub open spec fn rendered_resp_mod_file(o: OutputFilesV) -> RenderedFileV {
    RenderedFileV {
        path: o.response_output_folder + "/mod.rs"@,
        content: join_all(
            sorted_dedup(
                seq![mod_line(o.prefix, "multi_use"@)] + resp_mod_lines(o.prefix, o.response_files),
            ),
        ),
    }
}

/// The rendered request-module index: sorted and deduplicated.
pub open spec fn rendered_req_mod_file(o: OutputFilesV) -> RenderedFileV {
    RenderedFileV {
        path: o.request_output_folder + "/mod.rs"@,
        content: join_all(sorted_dedup(req_mod_lines(o.prefix, o.request_files))),
    }
}

/// Every file one generation run writes, in the order it is written.
pub open spec fn render_files(o: OutputFilesV) -> Seq<RenderedFileV> {
    seq![rendered_annotation_file(o), rendered_resp_mod_file(o), rendered_req_mod_file(o)]
        + rendered_request_files(o, o.request_files) + rendered_response_files(
        o,
        o.response_files,
    )
}

/// Both rendered module indices are canonical: strictly sorted, free of
/// duplicates, and holding exactly the module lines of the aggregate — so
/// rendering unchanged output files yields the byte-identical indices.
pub proof fn lemma_mod_indices_canonical(o: OutputFilesV)
    ensures
        crate::text::strictly_sorted(
            sorted_dedup(
                seq![mod_line(o.prefix, "multi_use"@)] + resp_mod_lines(o.prefix, o.response_files),
            ),
        ),
        crate::text::strictly_sorted(sorted_dedup(req_mod_lines(o.prefix, o.request_files))),
{
    crate::text::lemma_sorted_dedup_props(
        seq![mod_line(o.prefix, "multi_use"@)] + resp_mod_lines(o.prefix, o.response_files),
    );
    crate::text::lemma_sorted_dedup_props(req_mod_lines(o.prefix, o.request_files));
}

impl OutputFiles {
    /// The service type of the first stored request function that cannot be
    /// rendered, if any.
    fn first_unrenderable(&self) -> (r: Option<String>)
        ensures
            r is None <==> files_wf(self@),
    {
        let ghost o = self@;
        let mut i: usize = 0;
        while i < self.request_files.len()
            invariant
                i <= self.request_files@.len(),
                o == self@,
                o.request_files.len() == self.request_files@.len(),
                forall|x: int, y: int|
                    0 <= x < i && 0 <= y < (#[trigger] o.request_files[x]).request_functions.len()
                        ==> segments(
                        (#[trigger] o.request_files[x].request_functions[y]).service_type,
                    ).len() >= 4,
            decreases self.request_files@.len() - i,
        {
            let rf = &self.request_files[i];
            let mut j: usize = 0;
            proof {
                assert(o.request_files[i as int] == rf@);
            }
            while j < rf.request_functions.len()
                invariant
                    j <= rf.request_functions@.len(),
                    o == self@,
                    o.request_files[i as int] == rf@,
                    0 <= i < o.request_files.len(),
                    rf@.request_functions.len() == rf.request_functions@.len(),
                    forall|y: int|
                        0 <= y < j ==> segments(
                            (#[trigger] rf@.request_functions[y]).service_type,
                        ).len() >= 4,
                decreases rf.request_functions@.len() - j,
            {
                let f = &rf.request_functions[j];
                let parts = split_colon(f.service_type.as_str());
                proof {
                    assert(rf@.request_functions[j as int] == f@);
                    assert(str_views(parts@).len() == segments(f@.service_type).len());
                }
                if parts.len() < 4 {
                    proof {
                        assert(segments(
                            o.request_files[i as int].request_functions[j as int].service_type,
                        ).len() < 4);
                    }
                    return Some(f.service_type.clone());
                }
                j = j + 1;
            }
            i = i + 1;
        }
        None
    }

    /// Renders every output artifact of this aggregate: the shared envelope
    /// module, both sorted and deduplicated module indices, and one module
    /// per request and response file. Fails if and only if some stored
    /// request function's service type cannot be split into at least four
    /// colon-delimited segments; nothing is rendered then.
    pub fn create_files(&self) -> (r: Result<RenderedOutput, GenError>)
        ensures
            match r {
                Ok(out) => files_wf(self@) && out@.response_output_folder
                    == self@.response_output_folder && out@.request_output_folder
                    == self@.request_output_folder && out@.files == render_files(self@),
                Err(e) => !files_wf(self@) && e@ is MalformedServiceType,
            },
    {
        let ghost o = self@;
        if let Some(service_type) = self.first_unrenderable() {
            return Err(GenError::MalformedServiceType(service_type));
        }
        let mut files: Vec<RenderedFile> = Vec::new();

        // the envelope module
        let mut ann_path = self.response_output_folder.clone();
        ann_path.append("/");
        ann_path.append(self.prefix.as_str());
        ann_path.append("multi_use.rs");
        let mut ann_content = String::from_str(
            "#[derive(Deserialize, Debug)]\npub struct Envelope<T> {\n\t#[serde(rename = \"Body\")]\n\tpub body: Body<T>,\n}\n\n#[derive(Deserialize, Debug)]\npub struct Body<T> { ",
        );
        let joined = join_strings(&self.annotation_string);
        ann_content.append(joined.as_str());
        ann_content.append("\n\tpub response: T,\n}");
        files.push(RenderedFile { path: ann_path, content: ann_content });

        // the response-module index
        let mut resp_mod_path = self.response_output_folder.clone();
        resp_mod_path.append("/mod.rs");
        let mut lines: Vec<String> = Vec::new();
        let mut mu_line = String::from_str("pub mod ");
        mu_line.append(self.prefix.as_str());
        mu_line.append("multi_use");
        mu_line.append(";\n");
        lines.push(mu_line);
        let ghost rfs = o.response_files;
        let mut i: usize = 0;
        proof {
            assert(rfs.skip(0) =~= rfs);
            assert(str_views(lines@) =~= seq![mod_line(o.prefix, "multi_use"@)]);
            assert(str_views(lines@) + resp_mod_lines(o.prefix, rfs.skip(0)) =~= seq![
                mod_line(o.prefix, "multi_use"@),
            ] + resp_mod_lines(o.prefix, rfs));
        }
        while i < self.response_files.len()
            invariant
                i <= self.response_files@.len(),
                o == self@,
                rfs == o.response_files,
                rfs.len() == self.response_files@.len(),
                str_views(lines@) + resp_mod_lines(o.prefix, rfs.skip(i as int)) == seq![
                    mod_line(o.prefix, "multi_use"@),
                ] + resp_mod_lines(o.prefix, rfs),
            decreases self.response_files@.len() - i,
        {
            let mut line = String::from_str("pub mod ");
            line.append(self.prefix.as_str());
            line.append(self.response_files[i].name.as_str());
            line.append(";\n");
            proof {
                assert(rfs.skip(i as int)[0] == rfs[i as int]);
                assert(rfs.skip(i as int).skip(1) =~= rfs.skip(i + 1));
                assert(rfs[i as int] == self.response_files@[i as int]@);
                assert(line@ == mod_line(o.prefix, rfs[i as int].name));
            }
            let ghost lines_before = lines@;
            lines.push(line);
            proof {
                assert(str_views(lines@) =~= str_views(lines_before).push(
                    mod_line(o.prefix, rfs[i as int].name),
                ));
                assert(str_views(lines_before).push(mod_line(o.prefix, rfs[i as int].name))
                    + resp_mod_lines(o.prefix, rfs.skip(i + 1)) =~= str_views(lines_before) + (seq![
                    mod_line(o.prefix, rfs[i as int].name),
                ] + resp_mod_lines(o.prefix, rfs.skip(i + 1))));
            }
            i = i + 1;
        }
        proof {
            assert(resp_mod_lines(o.prefix, rfs.skip(rfs.len() as int)) =~= Seq::<
                Seq<char>,
            >::empty());
            assert(str_views(lines@) + Seq::<Seq<char>>::empty() =~= str_views(lines@));
        }
        let sorted_lines = sorted_dedup_strings(lines);
        let resp_mod_content = join_strings(&sorted_lines);

        // the request-module index
        let mut req_mod_path = self.request_output_folder.clone();
        req_mod_path.append("/mod.rs");
        let mut qlines: Vec<String> = Vec::new();
        let ghost qfs = o.request_files;
        let mut i: usize = 0;
        proof {
            assert(qfs.skip(0) =~= qfs);
            assert(str_views(qlines@) =~= Seq::<Seq<char>>::empty());
            assert(str_views(qlines@) + req_mod_lines(o.prefix, qfs) =~= req_mod_lines(
                o.prefix,
                qfs,
            ));
        }
        while i < self.request_files.len()
            invariant
                i <= self.request_files@.len(),
                o == self@,
                qfs == o.request_files,
                qfs.len() == self.request_files@.len(),
                str_views(qlines@) + req_mod_lines(o.prefix, qfs.skip(i as int)) == req_mod_lines(
                    o.prefix,
                    qfs,
                ),
            decreases self.request_files@.len() - i,
        {
            let mut line = String::from_str("pub mod ");
            line.append(self.prefix.as_str());
            line.append(self.request_files[i].name.as_str());
            line.append(";\n");
            proof {
                assert(qfs.skip(i as int)[0] == qfs[i as int]);
                assert(qfs.skip(i as int).skip(1) =~= qfs.skip(i + 1));
                assert(qfs[i as int] == self.request_files@[i as int]@);
                assert(line@ == mod_line(o.prefix, qfs[i as int].name));
            }
            let ghost lines_before = qlines@;
            qlines.push(line);
            proof {
                assert(str_views(qlines@) =~= str_views(lines_before).push(
                    mod_line(o.prefix, qfs[i as int].name),
                ));
                assert(str_views(lines_before).push(mod_line(o.prefix, qfs[i as int].name))
                    + req_mod_lines(o.prefix, qfs.skip(i + 1)) =~= str_views(lines_before) + (seq![
                    mod_line(o.prefix, qfs[i as int].name),
                ] + req_mod_lines(o.prefix, qfs.skip(i + 1))));
            }
            i = i + 1;
        }
        proof {
            assert(req_mod_lines(o.prefix, qfs.skip(qfs.len() as int)) =~= Seq::<
                Seq<char>,
            >::empty());
            assert(str_views(qlines@) + Seq::<Seq<char>>::empty() =~= str_views(qlines@));
        }
        let sorted_qlines = sorted_dedup_strings(qlines);
        let req_mod_content = join_strings(&sorted_qlines);

        files.push(RenderedFile { path: resp_mod_path, content: resp_mod_content });
        files.push(RenderedFile { path: req_mod_path, content: req_mod_content });
        proof {
            assert(rf_views(files@) =~= seq![
                rendered_annotation_file(o),
                rendered_resp_mod_file(o),
                rendered_req_mod_file(o),
            ]);
        }

        // one module per request file
        let ghost head = rf_views(files@);
        let mut i: usize = 0;
        proof {
            assert(qfs.skip(0) =~= qfs);
            assert(head + rendered_request_files(o, qfs) =~= head + rendered_request_files(
                o,
                qfs,
            ));
        }
        while i < self.request_files.len()
            invariant
                i <= self.request_files@.len(),
                o == self@,
                files_wf(o),
                qfs == o.request_files,
                qfs.len() == self.request_files@.len(),
                rf_views(files@) + rendered_request_files(o, qfs.skip(i as int)) == head
                    + rendered_request_files(o, qfs),
            decreases self.request_files@.len() - i,
        {
            let rf = &self.request_files[i];
            proof {
                assert(qfs.skip(i as int)[0] == qfs[i as int]);
                assert(qfs.skip(i as int).skip(1) =~= qfs.skip(i + 1));
                assert(qfs[i as int] == self.request_files@[i as int]@);
            }
            let mut path = self.request_output_folder.clone();
            path.append("/");
            path.append(self.prefix.as_str());
            path.append(rf.name.as_str());
            path.append(".rs");
            let ghost fns = qfs[i as int].request_functions;
            let mut content = String::new();
            let mut j: usize = 0;
            proof {
                assert(fns.skip(0) =~= fns);
                assert(content@ + functions_text(fns) =~= functions_text(fns));
            }
            while j < rf.request_functions.len()
                invariant
                    j <= rf.request_functions@.len(),
                    o == self@,
                    files_wf(o),
                    0 <= i < qfs.len(),
                    qfs == o.request_files,
                    qfs[i as int] == rf@,
                    fns == qfs[i as int].request_functions,
                    fns.len() == rf.request_functions@.len(),
                    content@ + functions_text(fns.skip(j as int)) == functions_text(fns),
                decreases rf.request_functions@.len() - j,
            {
                proof {
                    assert(fns.skip(j as int)[0] == fns[j as int]);
                    assert(fns.skip(j as int).skip(1) =~= fns.skip(j + 1));
                    assert(fns[j as int] == rf.request_functions@[j as int]@);
                    assert(segments(fns[j as int].service_type).len() >= 4);
                }
                let text = rf.request_functions[j].create_function();
                let ghost content_before = content@;
                content.append(text.as_str());
                proof {
                    assert((content_before + function_text(fns[j as int])) + functions_text(
                        fns.skip(j + 1),
                    ) =~= content_before + (function_text(fns[j as int]) + functions_text(
                        fns.skip(j + 1),
                    )));
                }
                j = j + 1;
            }
            proof {
                assert(functions_text(fns.skip(fns.len() as int)) =~= Seq::<char>::empty());
                assert(content@ + Seq::<char>::empty() =~= content@);
            }
            let ghost files_before = files@;
            files.push(RenderedFile { path, content });
            proof {
                assert(rf_views(files@) =~= rf_views(files_before).push(
                    rendered_request_files(o, qfs.skip(i as int))[0],
                ));
                assert(rf_views(files_before).push(rendered_request_files(o, qfs.skip(i as int))[0])
                    + rendered_request_files(o, qfs.skip(i + 1)) =~= rf_views(files_before) + (seq![
                    rendered_request_files(o, qfs.skip(i as int))[0],
                ] + rendered_request_files(o, qfs.skip(i + 1))));
            }
            i = i + 1;
        }
        proof {
            assert(rendered_request_files(o, qfs.skip(qfs.len() as int)) =~= Seq::<
                RenderedFileV,
            >::empty());
            assert(rf_views(files@) + Seq::<RenderedFileV>::empty() =~= rf_views(files@));
        }

        // one module per response file
        let ghost head2 = rf_views(files@);
        let mut i: usize = 0;
        proof {
            assert(rfs.skip(0) =~= rfs);
        }
        while i < self.response_files.len()
            invariant
                i <= self.response_files@.len(),
                o == self@,
                rfs == o.response_files,
                rfs.len() == self.response_files@.len(),
                rf_views(files@) + rendered_response_files(o, rfs.skip(i as int)) == head2
                    + rendered_response_files(o, rfs),
            decreases self.response_files@.len() - i,
        {
            let f = &self.response_files[i];
            proof {
                assert(rfs.skip(i as int)[0] == rfs[i as int]);
                assert(rfs.skip(i as int).skip(1) =~= rfs.skip(i + 1));
                assert(rfs[i as int] == self.response_files@[i as int]@);
            }
            let mut path = self.response_output_folder.clone();
            path.append("/");
            path.append(self.prefix.as_str());
            path.append(f.name.as_str());
            path.append(".rs");
            let content = join_strings(&f.content);
            let ghost files_before = files@;
            files.push(RenderedFile { path, content });
            proof {
                assert(rf_views(files@) =~= rf_views(files_before).push(
                    rendered_response_files(o, rfs.skip(i as int))[0],
                ));
                assert(rf_views(files_before).push(
                    rendered_response_files(o, rfs.skip(i as int))[0],
                ) + rendered_response_files(o, rfs.skip(i + 1)) =~= rf_views(files_before) + (seq![
                    rendered_response_files(o, rfs.skip(i as int))[0],
                ] + rendered_response_files(o, rfs.skip(i + 1))));
            }
            i = i + 1;
        }
        proof {
            assert(rendered_response_files(o, rfs.skip(rfs.len() as int)) =~= Seq::<
                RenderedFileV,
            >::empty());
            assert(rf_views(files@) + Seq::<RenderedFileV>::empty() =~= rf_views(files@));
            assert(rf_views(files@) =~= render_files(o));
        }
        Ok(
            RenderedOutput {
                response_output_folder: self.response_output_folder.clone(),
                request_output_folder: self.request_output_folder.clone(),
                files,
            },
        )
    }
}

} // verus!
