use ticket_api::Ctx;
use ticket_api::Error;
use ticket_api::ModelController;
use ticket_api::TicketForCreate;

fn mc() -> ModelController {
    ModelController::new().unwrap()
}

fn tfc(title: &str) -> TicketForCreate {
    TicketForCreate { title: String::from(title) }
}

#[test]
fn create_ids_start_at_zero_and_increase() {
    let mut m = mc();
    let c = Ctx::new(9);
    let t0 = m.create_ticket(c, tfc("a")).unwrap();
    let t1 = m.create_ticket(c, tfc("b")).unwrap();
    let t2 = m.create_ticket(c, tfc("c")).unwrap();
    assert_eq!(t0.id, 0);
    assert_eq!(t1.id, 1);
    assert_eq!(t2.id, 2);
    assert_eq!(t0.cid, 9);
    assert_eq!(t1.title, "b");
}

#[test]
fn ids_are_not_reused_after_delete() {
    let mut m = mc();
    let c = Ctx::new(1);
    m.create_ticket(c, tfc("a")).unwrap();
    m.create_ticket(c, tfc("b")).unwrap();
    m.delete_ticket(1, c).unwrap();
    let t = m.create_ticket(c, tfc("c")).unwrap();
    assert_eq!(t.id, 2);
}

#[test]
fn delete_twice_second_fails_not_found() {
    let mut m = mc();
    let c = Ctx::new(1);
    m.create_ticket(c, tfc("a")).unwrap();
    let deleted = m.delete_ticket(0, c).unwrap();
    assert_eq!(deleted.id, 0);
    assert_eq!(deleted.title, "a");
    let again = m.delete_ticket(0, c);
    assert_eq!(again.unwrap_err(), Error::TicketDeleteFailIdNotFound { id: 0 });
}

#[test]
fn delete_unknown_id_fails_not_found() {
    let mut m = mc();
    let c = Ctx::new(1);
    let r = m.delete_ticket(7, c);
    assert_eq!(r.unwrap_err(), Error::TicketDeleteFailIdNotFound { id: 7 });
}

#[test]
fn list_skips_deleted_and_keeps_order() {
    let mut m = mc();
    let c = Ctx::new(4);
    m.create_ticket(c, tfc("first")).unwrap();
    m.create_ticket(c, tfc("second")).unwrap();
    m.create_ticket(c, tfc("third")).unwrap();
    m.delete_ticket(1, c).unwrap();
    let l = m.list_tickets(c).unwrap();
    assert_eq!(l.len(), 2);
    assert_eq!(l[0].id, 0);
    assert_eq!(l[0].title, "first");
    assert_eq!(l[1].id, 2);
    assert_eq!(l[1].title, "third");
}

#[test]
fn list_empty_store() {
    let m = mc();
    let l = m.list_tickets(Ctx::new(1)).unwrap();
    assert!(l.is_empty());
}
