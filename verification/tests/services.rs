use mofox_ui::services::{
    service_display_name, service_working_dir, start_failed_response, started_response,
    stop_response, unknown_service_response, ServiceResponse,
};

#[test]
fn known_services_have_names_and_directories() {
    assert_eq!(service_display_name("bot"), "MoFox-Bot");
    assert_eq!(service_display_name("adapter"), "Adapter");
    assert_eq!(service_display_name("matcha"), "Matcha-Adapter");
    assert_eq!(service_working_dir("bot"), Some("../Bot".to_string()));
    assert_eq!(service_working_dir("adapter"), Some("../Adapter".to_string()));
    assert_eq!(service_working_dir("matcha"), Some("../Matcha-Adapter".to_string()));
}

#[test]
fn unknown_service_is_shown_as_it_is_and_runs_nowhere() {
    assert_eq!(service_display_name("other"), "other");
    assert_eq!(service_display_name(""), "");
    assert_eq!(service_display_name("Bot"), "Bot");
    assert_eq!(service_working_dir("other"), None);
    assert_eq!(service_working_dir("bots"), None);
    assert_eq!(service_working_dir(""), None);
}

#[test]
fn stopping_a_known_service_succeeds() {
    assert_eq!(
        stop_response("bot"),
        ServiceResponse { success: true, message: "MoFox-Bot 停止成功".to_string() }
    );
    assert_eq!(
        stop_response("adapter"),
        ServiceResponse { success: true, message: "Adapter 停止成功".to_string() }
    );
    assert_eq!(
        stop_response("matcha"),
        ServiceResponse { success: true, message: "Matcha-Adapter 停止成功".to_string() }
    );
}

#[test]
fn request_for_an_unknown_service_fails() {
    let unknown = ServiceResponse { success: false, message: "未知服务".to_string() };
    assert_eq!(stop_response("other"), unknown);
    assert_eq!(unknown_service_response(), unknown);
}

#[test]
fn starting_a_service_is_answered_with_its_name() {
    assert_eq!(
        started_response("bot"),
        ServiceResponse { success: true, message: "MoFox-Bot 启动命令已执行".to_string() }
    );
    assert_eq!(
        start_failed_response("matcha", "no such file"),
        ServiceResponse {
            success: false,
            message: "Matcha-Adapter 启动失败: no such file".to_string()
        }
    );
}

#[test]
fn copy_of_an_answer_is_the_same_answer() {
    let answer = stop_response("bot");
    assert_eq!(answer.clone(), answer);
}
