//! The services that the panel starts and stops: what they are called, where they
//! run and what a request is answered with.

use vstd::prelude::*;
use vstd::string::StringExecFns;
use crate::text::same_text;

verus! {

/// The answer to a request to start or to stop a service.
#[derive(Debug, PartialEq, Eq)]
pub struct ServiceResponse {
    pub success: bool,
    pub message: String,
}

/// The view of an answer.
pub ghost struct ServiceResponseView {
    pub success: bool,
    pub message: Seq<char>,
}

impl View for ServiceResponse {
    type V = ServiceResponseView;

    open spec fn view(&self) -> ServiceResponseView {
        ServiceResponseView { success: self.success, message: self.message@ }
    }
}

impl Clone for ServiceResponse {
    fn clone(&self) -> (copy: Self)
        ensures
            copy@ == self@,
    {
        ServiceResponse { success: self.success, message: self.message.clone() }
    }
}

/// Whether `service` names one of the services that can be started and stopped.
pub open spec fn is_known_service(service: Seq<char>) -> bool {
    service == "bot"@ || service == "adapter"@ || service == "matcha"@
}

/// The name under which `service` is shown: a known service has a name of its own,
/// any other is shown as it is.
pub open spec fn display_name(service: Seq<char>) -> Seq<char> {
    if service == "bot"@ {
        "MoFox-Bot"@
    } else if service == "adapter"@ {
        "Adapter"@
    } else if service == "matcha"@ {
        "Matcha-Adapter"@
    } else {
        service
    }
}

/// The directory in which a known service runs.
pub open spec fn working_dir(service: Seq<char>) -> Option<Seq<char>> {
    if service == "bot"@ {
        Some("../Bot"@)
    } else if service == "adapter"@ {
        Some("../Adapter"@)
    } else if service == "matcha"@ {
        Some("../Matcha-Adapter"@)
    } else {
        None
    }
}

/// The answer to a request that names no known service.
pub open spec fn unknown_service() -> ServiceResponseView {
    ServiceResponseView { success: false, message: "未知服务"@ }
}

/// The answer to a request to stop `service`.
pub open spec fn stop_answer(service: Seq<char>) -> ServiceResponseView {
    if is_known_service(service) {
        ServiceResponseView { success: true, message: display_name(service) + " 停止成功"@ }
    } else {
        unknown_service()
    }
}

/// The answer to a request to start `service` once its process has been started.
pub open spec fn started_answer(service: Seq<char>) -> ServiceResponseView {
    ServiceResponseView { success: true, message: display_name(service) + " 启动命令已执行"@ }
}

/// The answer to a request to start `service` whose process could not be started.
pub open spec fn start_failed_answer(service: Seq<char>, error: Seq<char>) -> ServiceResponseView {
    ServiceResponseView {
        success: false,
        message: display_name(service) + " 启动失败: "@ + error,
    }
}

/// The name under which `service` is shown.
pub fn service_display_name(service: &str) -> (name: String)
    ensures
        name@ == display_name(service@),
{
    if same_text(service, "bot") {
        "MoFox-Bot".to_owned()
    } else if same_text(service, "adapter") {
        "Adapter".to_owned()
    } else if same_text(service, "matcha") {
        "Matcha-Adapter".to_owned()
    } else {
        service.to_owned()
    }
}

/// The directory in which `service` runs, or `None` where the service is not known.
pub fn service_working_dir(service: &str) -> (dir: Option<String>)
    ensures
        crate::text::option_text(dir) == working_dir(service@),
        dir is Some <==> is_known_service(service@),
{
    if same_text(service, "bot") {
        Some("../Bot".to_owned())
    } else if same_text(service, "adapter") {
        Some("../Adapter".to_owned())
    } else if same_text(service, "matcha") {
        Some("../Matcha-Adapter".to_owned())
    } else {
        None
    }
}

/// The answer to a request that names no known service.
pub fn unknown_service_response() -> (response: ServiceResponse)
    ensures
        response@ == unknown_service(),
{
    ServiceResponse { success: false, message: "未知服务".to_owned() }
}

/// The answer to a request to stop `service`.
pub fn stop_response(service: &str) -> (response: ServiceResponse)
    ensures
        response@ == stop_answer(service@),
{
    match service_working_dir(service) {
        Some(_) => {
            let mut message = service_display_name(service);
            message.append(" 停止成功");
            ServiceResponse { success: true, message }
        },
        None => unknown_service_response(),
    }
}

/// The answer to a request to start `service` once its process has been started.
pub fn started_response(service: &str) -> (response: ServiceResponse)
    ensures
        response@ == started_answer(service@),
{
    let mut message = service_display_name(service);
    message.append(" 启动命令已执行");
    ServiceResponse { success: true, message }
}

/// The answer to a request to start `service` whose process could not be started.
pub fn start_failed_response(service: &str, error: &str) -> (response: ServiceResponse)
    ensures
        response@ == start_failed_answer(service@, error@),
{
    let mut message = service_display_name(service);
    message.append(" 启动失败: ");
    message.append(error);
    ServiceResponse { success: false, message }
}

} // verus!
