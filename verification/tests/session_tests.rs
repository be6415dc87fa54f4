use easy_remit::session::get_receiver_id;
use easy_remit::session::get_t_amount;
use easy_remit::session::get_user_id;
use easy_remit::session::set_receiver_id;
use easy_remit::session::set_t_amount;
use easy_remit::session::set_user_id;
use easy_remit::session::SessionContext;

#[test]
fn a_new_session_holds_nothing() {
    let ctx = SessionContext::new();
    assert_eq!(get_user_id(&ctx), None);
    assert_eq!(get_receiver_id(&ctx), None);
    assert_eq!(get_t_amount(&ctx), None);
}

#[test]
fn each_setter_changes_its_own_value_only() {
    let mut ctx = SessionContext::new();
    set_user_id(&mut ctx, String::from("040000001234"));
    assert_eq!(get_user_id(&ctx), Some(String::from("040000001234")));
    assert_eq!(get_receiver_id(&ctx), None);
    assert_eq!(get_t_amount(&ctx), None);
    set_receiver_id(&mut ctx, String::from("990000000007"));
    assert_eq!(get_user_id(&ctx), Some(String::from("040000001234")));
    assert_eq!(get_receiver_id(&ctx), Some(String::from("990000000007")));
    assert_eq!(get_t_amount(&ctx), None);
    set_t_amount(&mut ctx, 200);
    assert_eq!(get_user_id(&ctx), Some(String::from("040000001234")));
    assert_eq!(get_receiver_id(&ctx), Some(String::from("990000000007")));
    assert_eq!(get_t_amount(&ctx), Some(200));
}

#[test]
fn a_later_value_replaces_an_earlier_one() {
    let mut ctx = SessionContext::new();
    set_t_amount(&mut ctx, 1);
    set_t_amount(&mut ctx, -5);
    assert_eq!(get_t_amount(&ctx), Some(-5));
    set_user_id(&mut ctx, String::from("a"));
    set_user_id(&mut ctx, String::from("b"));
    assert_eq!(get_user_id(&ctx), Some(String::from("b")));
    set_receiver_id(&mut ctx, String::from("x"));
    set_receiver_id(&mut ctx, String::new());
    assert_eq!(get_receiver_id(&ctx), Some(String::new()));
}

#[test]
fn staging_and_clearing_leave_the_user_alone() {
    let mut ctx = SessionContext::new();
    set_user_id(&mut ctx, String::from("me"));
    ctx.stage_transfer(String::from("you"), 150);
    assert_eq!(get_receiver_id(&ctx), Some(String::from("you")));
    assert_eq!(get_t_amount(&ctx), Some(150));
    assert_eq!(get_user_id(&ctx), Some(String::from("me")));
    ctx.clear_staged();
    assert_eq!(get_receiver_id(&ctx), None);
    assert_eq!(get_t_amount(&ctx), None);
    assert_eq!(get_user_id(&ctx), Some(String::from("me")));
}
