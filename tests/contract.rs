use hello_tiburona::{Address, DataKey, Error, HelloContract, Value};

fn id(s: &str) -> Address {
    Address::new(s.to_string())
}

fn ledger_with_admin(admin: &str) -> HelloContract {
    let mut c = HelloContract::new();
    c.initialize(id(admin)).unwrap();
    c
}

#[test]
fn test_initialize() {
    let c = ledger_with_admin("GADMIN");
    assert_eq!(c.get_contador(), 0);
}

#[test]
fn test_no_reinicializar() {
    let mut c = ledger_with_admin("GADMIN");
    let r = c.initialize(id("GADMIN"));
    assert_eq!(r, Err(Error::YaInicializado));
    assert_eq!(Error::YaInicializado.code(), 5);
}

#[test]
fn test_hello_exitoso() {
    let mut c = ledger_with_admin("GADMIN");
    let usuario = id("GUSUARIO");
    let resultado = c.hello(usuario.clone(), "Test".to_string());
    assert_eq!(resultado, Ok("Hola Tiburona".to_string()));
    assert_eq!(c.get_contador(), 1);
    assert_eq!(c.get_ultimo_saludo(usuario.clone()), Some("Test".to_string()));
    assert_eq!(c.get_contador_usuario(usuario), 1);
}

#[test]
fn test_nombre_vacio() {
    let mut c = ledger_with_admin("GADMIN");
    let r = c.hello(id("GUSUARIO"), "".to_string());
    assert_eq!(r, Err(Error::NombreVacio));
    assert_eq!(Error::NombreVacio.code(), 1);
}

#[test]
fn test_nombre_muy_largo() {
    let mut c = ledger_with_admin("GADMIN");
    let r = c.hello(id("GUSUARIO"), "abcdefghijklmnopqrstuvwxyz0123456789".to_string());
    assert_eq!(r, Err(Error::NombreMuyLargo));
    assert_eq!(Error::NombreMuyLargo.code(), 2);
}

#[test]
fn test_reset_solo_admin() {
    let mut c = ledger_with_admin("GADMIN");
    c.hello(id("GUSUARIO"), "Test".to_string()).unwrap();
    assert_eq!(c.get_contador(), 1);
    c.reset_contador(id("GADMIN")).unwrap();
    assert_eq!(c.get_contador(), 0);
}

#[test]
fn test_reset_no_autorizado() {
    let mut c = ledger_with_admin("GADMIN");
    let r = c.reset_contador(id("GOTRO"));
    assert_eq!(r, Err(Error::NoAutorizado));
    assert_eq!(Error::NoAutorizado.code(), 3);
}

#[test]
fn test_contador_usuario() {
    let mut c = ledger_with_admin("GADMIN");
    let usuario = id("GUSUARIO");
    c.hello(usuario.clone(), "Test".to_string()).unwrap();
    c.hello(usuario.clone(), "Test".to_string()).unwrap();
    assert_eq!(c.get_contador(), 2);
    assert_eq!(c.get_contador_usuario(usuario), 2);
}

#[test]
fn test_transfer_admin() {
    let mut c = ledger_with_admin("GADMIN");
    c.transfer_admin(id("GADMIN"), id("GNUEVO")).unwrap();
    c.reset_contador(id("GNUEVO")).unwrap();
    assert_eq!(c.get_contador(), 0);
}

#[test]
fn test_transfer_admin_no_autorizado() {
    let mut c = ledger_with_admin("GADMIN");
    let r = c.transfer_admin(id("GNOADMIN"), id("GNUEVO"));
    assert_eq!(r, Err(Error::NoAutorizado));
}

#[test]
fn test_set_limite() {
    let mut c = ledger_with_admin("GADMIN");
    c.set_limite(id("GADMIN"), 10).unwrap();
    let result = c.hello(id("GUSUARIO"), "abcdefghijk".to_string());
    assert!(result.is_err());
    let resultado = c.hello(id("GUSUARIO"), "Test".to_string());
    assert_eq!(resultado, Ok("Hola Tiburona".to_string()));
}

#[test]
fn test_set_limite_no_autorizado() {
    let mut c = ledger_with_admin("GADMIN");
    let r = c.set_limite(id("GNOADMIN"), 10);
    assert_eq!(r, Err(Error::NoAutorizado));
}

#[test]
fn initialize_fails_for_any_later_admin() {
    let mut c = ledger_with_admin("GADMIN");
    c.hello(id("GUSUARIO"), "Ana".to_string()).unwrap();
    assert_eq!(c.initialize(id("GOTRO")), Err(Error::YaInicializado));
    assert_eq!(c.initialize(id("GADMIN")), Err(Error::YaInicializado));
    assert_eq!(c.get_contador(), 1);
}

#[test]
fn counters_count_successful_greetings_only() {
    let mut c = ledger_with_admin("GADMIN");
    let ana = id("GANA");
    let luis = id("GLUIS");
    c.hello(ana.clone(), "Ana".to_string()).unwrap();
    c.hello(luis.clone(), "Luis".to_string()).unwrap();
    c.hello(ana.clone(), "Ana".to_string()).unwrap();
    assert!(c.hello(ana.clone(), "".to_string()).is_err());
    assert_eq!(c.get_contador(), 3);
    assert_eq!(c.get_contador_usuario(ana), 2);
    assert_eq!(c.get_contador_usuario(luis), 1);
    assert_eq!(c.get_contador_usuario(id("GNADIE")), 0);
}

#[test]
fn end_to_end_reset_keeps_user_counter() {
    let mut c = ledger_with_admin("GADMIN");
    let u = id("GUSUARIO");
    assert_eq!(c.hello(u.clone(), "Test".to_string()), Ok("Hola Tiburona".to_string()));
    assert_eq!(c.get_contador(), 1);
    assert_eq!(c.get_contador_usuario(u.clone()), 1);
    assert_eq!(c.get_ultimo_saludo(u.clone()), Some("Test".to_string()));
    c.hello(u.clone(), "Test".to_string()).unwrap();
    assert_eq!(c.get_contador(), 2);
    assert_eq!(c.get_contador_usuario(u.clone()), 2);
    c.reset_contador(id("GADMIN")).unwrap();
    assert_eq!(c.get_contador(), 0);
    assert_eq!(c.get_contador_usuario(u), 2);
}

#[test]
fn end_to_end_limit_ten() {
    let mut c = ledger_with_admin("GADMIN");
    c.set_limite(id("GADMIN"), 10).unwrap();
    let u = id("GUSUARIO");
    assert_eq!(c.hello(u.clone(), "abcdefghijk".to_string()), Err(Error::NombreMuyLargo));
    assert_eq!(c.hello(u.clone(), "abcdefghij".to_string()), Ok("Hola Tiburona".to_string()));
    assert_eq!(c.hello(u, "Test".to_string()), Ok("Hola Tiburona".to_string()));
}

#[test]
fn limit_is_thirty_two_after_initialize() {
    let mut c = ledger_with_admin("GADMIN");
    let u = id("GUSUARIO");
    let exact = "a".repeat(32);
    let over = "a".repeat(33);
    assert_eq!(c.hello(u.clone(), over), Err(Error::NombreMuyLargo));
    assert_eq!(c.hello(u.clone(), exact.clone()), Ok("Hola Tiburona".to_string()));
    assert_eq!(c.get_ultimo_saludo(u), Some(exact));
}

#[test]
fn limit_counts_bytes_of_the_name() {
    let mut c = ledger_with_admin("GADMIN");
    c.set_limite(id("GADMIN"), 4).unwrap();
    let u = id("GUSUARIO");
    // four characters, five bytes
    assert_eq!(c.hello(u.clone(), "niño".to_string()), Err(Error::NombreMuyLargo));
    assert_eq!(c.hello(u, "nino".to_string()), Ok("Hola Tiburona".to_string()));
}

#[test]
fn limit_zero_rejects_every_non_empty_name() {
    let mut c = ledger_with_admin("GADMIN");
    c.set_limite(id("GADMIN"), 0).unwrap();
    let u = id("GUSUARIO");
    assert_eq!(c.hello(u.clone(), "a".to_string()), Err(Error::NombreMuyLargo));
    assert_eq!(c.hello(u, "".to_string()), Err(Error::NombreVacio));
    assert_eq!(c.get_contador(), 0);
}

#[test]
fn last_greeting_is_the_last_successful_name() {
    let mut c = ledger_with_admin("GADMIN");
    let u = id("GUSUARIO");
    assert_eq!(c.get_ultimo_saludo(u.clone()), None);
    c.hello(u.clone(), "Primero".to_string()).unwrap();
    c.hello(u.clone(), "Segundo".to_string()).unwrap();
    assert!(c.hello(u.clone(), "x".repeat(40)).is_err());
    c.hello(id("GOTRO"), "Otro".to_string()).unwrap();
    assert_eq!(c.get_ultimo_saludo(u), Some("Segundo".to_string()));
    assert_eq!(c.get_ultimo_saludo(id("GOTRO")), Some("Otro".to_string()));
}

#[test]
fn admin_operations_before_initialize_fail() {
    let mut c = HelloContract::new();
    assert_eq!(c.reset_contador(id("GADMIN")), Err(Error::NoInicializado));
    assert_eq!(c.transfer_admin(id("GADMIN"), id("GB")), Err(Error::NoInicializado));
    assert_eq!(c.set_limite(id("GADMIN"), 5), Err(Error::NoInicializado));
    assert_eq!(Error::NoInicializado.code(), 4);
}

#[test]
fn hello_before_initialize_uses_default_limit() {
    let mut c = HelloContract::new();
    let u = id("GUSUARIO");
    assert_eq!(c.hello(u.clone(), "Test".to_string()), Ok("Hola Tiburona".to_string()));
    assert_eq!(c.hello(u.clone(), "a".repeat(33)), Err(Error::NombreMuyLargo));
    assert_eq!(c.get_contador(), 1);
    assert_eq!(c.get_contador_usuario(u), 1);
}

#[test]
fn transfer_moves_admin_rights() {
    let mut c = ledger_with_admin("GA");
    c.transfer_admin(id("GA"), id("GB")).unwrap();
    c.hello(id("GU"), "Test".to_string()).unwrap();
    assert_eq!(c.reset_contador(id("GA")), Err(Error::NoAutorizado));
    assert_eq!(c.set_limite(id("GA"), 3), Err(Error::NoAutorizado));
    assert_eq!(c.transfer_admin(id("GA"), id("GA")), Err(Error::NoAutorizado));
    assert_eq!(c.set_limite(id("GB"), 3), Ok(()));
    assert_eq!(c.reset_contador(id("GB")), Ok(()));
    assert_eq!(c.get_contador(), 0);
}

#[test]
fn greeting_extends_the_entries_it_writes() {
    let mut c = ledger_with_admin("GADMIN");
    let u = id("GUSUARIO");
    c.hello(u.clone(), "Test".to_string()).unwrap();
    let persistent = c.persistent();
    assert!(persistent.has(&DataKey::UltimoSaludo(u.clone())));
    assert!(persistent.has(&DataKey::ContadorPorUsuario(u.clone())));
    for e in persistent.entries() {
        assert_eq!(e.ttl, 100);
    }
    for e in c.instance().entries() {
        assert_eq!(e.ttl, 100);
    }
    match persistent.get(&DataKey::ContadorPorUsuario(u)) {
        Some(Value::Number(n)) => assert_eq!(n, 1),
        _ => panic!("per-identity counter missing"),
    }
}

#[test]
fn tier_extension_follows_threshold() {
    let mut t = hello_tiburona::Tier::new();
    t.set(DataKey::ContadorSaludos, Value::Number(7));
    t.extend_ttl(&DataKey::ContadorSaludos, 100, 100);
    t.extend_ttl(&DataKey::ContadorSaludos, 50, 200);
    assert_eq!(t.entries()[0].ttl, 100);
    t.extend_all(150, 300);
    assert_eq!(t.entries()[0].ttl, 300);
    t.set(DataKey::ContadorSaludos, Value::Number(0));
    assert_eq!(t.entries()[0].ttl, 300);
    t.set(DataKey::LimiteCaracteres, Value::Number(1));
    assert_eq!(t.entries()[1].ttl, 0);
}
