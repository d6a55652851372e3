//! fcitx5, through its D-Bus controller interface (`org.fcitx.Fcitx.Controller1`).

use vstd::prelude::*;

use fcitx5_dbus::controller::ControllerProxyBlocking;
use fcitx5_dbus::zbus;

use crate::error::{platform_error, ErrorModel, ImSwitchError};
use crate::text::{has_prefix, texts};

verus! {

/// `zbus::blocking::Connection`, carried through opaquely.
#[verifier::external_type_specification]
#[verifier::external_body]
pub struct ExBusConnection(zbus::blocking::Connection);

/// `zbus::Error`, carried through opaquely.
#[verifier::external_type_specification]
#[verifier::external_body]
pub struct ExBusError(zbus::Error);

/// fcitx5's blocking controller proxy, carried through opaquely.
#[verifier::external_type_specification]
#[verifier::external_body]
pub struct ExControllerProxy<'p>(ControllerProxyBlocking<'p>);

/// One entry of fcitx5's list of available input methods; the first field is
/// the input method's name.
pub type InputMethodEntry = (String, String, String, String, String, String, bool);

/// `zbus::blocking::Connection::session`: a connection to the session bus.
/// Whether it succeeds depends on the environment and on a running bus, so
/// nothing is claimed of the outcome.
#[verifier::external_body]
fn session_bus() -> (r: Result<zbus::blocking::Connection, zbus::Error>) {
    zbus::blocking::Connection::session()
}

/// `ControllerProxyBlocking::new`: a proxy for fcitx5's controller object on
/// `conn`. Nothing is claimed of the outcome.
#[verifier::external_body]
fn controller_proxy(conn: &zbus::blocking::Connection) -> (r: Result<
    ControllerProxyBlocking<'static>,
    zbus::Error,
>) {
    ControllerProxyBlocking::new(conn)
}

/// `ControllerProxyBlocking::current_input_method`: asks the fcitx5 service
/// for its current input method. The answer is the service's, so nothing is
/// claimed of it.
#[verifier::external_body]
fn query_current_input_method(proxy: &ControllerProxyBlocking<'static>) -> (r: Result<
    String,
    zbus::Error,
>) {
    proxy.current_input_method()
}

/// `ControllerProxyBlocking::set_current_im`: asks the fcitx5 service to
/// switch to `im`. Nothing is claimed of the outcome.
#[verifier::external_body]
fn request_current_im(proxy: &ControllerProxyBlocking<'static>, im: &str) -> (r: Result<
    (),
    zbus::Error,
>) {
    proxy.set_current_im(im)
}

/// `ControllerProxyBlocking::available_input_methods`: asks the fcitx5
/// service for its input methods. Nothing is claimed of the answer.
#[verifier::external_body]
fn query_available_input_methods(proxy: &ControllerProxyBlocking<'static>) -> (r: Result<
    Vec<InputMethodEntry>,
    zbus::Error,
>) {
    proxy.available_input_methods()
}

/// The `Display` text of a `zbus::Error`. Nothing is claimed of the text.
#[verifier::external_body]
fn bus_error_text(e: &zbus::Error) -> (s: String) {
    e.to_string()
}

/// A backend error whose text begins with `context`.
pub open spec fn failed_with(e: ErrorModel, context: Seq<char>) -> bool {
    e matches ErrorModel::Platform(m) && has_prefix(m, context)
}

/// Errors that reaching the fcitx5 controller can give.
pub open spec fn connect_failure(e: ErrorModel) -> bool {
    ||| failed_with(e, "fcitx5: D-Bus session error: "@)
    ||| failed_with(e, "fcitx5: proxy creation failed: "@)
}

/// A D-Bus result as a library result: the value is kept, and an error
/// becomes a backend error whose text is `context` followed by the D-Bus
/// error's text.
pub fn bus_result<T>(r: Result<T, zbus::Error>, context: &str) -> (out: Result<T, ImSwitchError>)
    ensures
        match r {
            Ok(v) => out == Ok::<T, ImSwitchError>(v),
            Err(_) => out matches Err(e) && failed_with(e@, context@),
        },
{
    match r {
        Ok(v) => Ok(v),
        Err(e) => {
            let text = bus_error_text(&e);
            let err = platform_error(context, text.as_str());
            assert((context@ + text@).take(context@.len() as int) =~= context@);
            Err(err)
        },
    }
}

/// A proxy for fcitx5's controller on the session bus.
fn connect() -> (r: Result<ControllerProxyBlocking<'static>, ImSwitchError>)
    ensures
        r matches Err(e) ==> connect_failure(e@),
{
    let conn = bus_result(session_bus(), "fcitx5: D-Bus session error: ")?;
    bus_result(controller_proxy(&conn), "fcitx5: proxy creation failed: ")
}

/// The current input method, as fcitx5 reports it.
pub fn get_input_method() -> (r: Result<String, ImSwitchError>)
    ensures
        r matches Err(e) ==> connect_failure(e@) || failed_with(
            e@,
            "fcitx5: failed to get input method: "@,
        ),
{
    let controller = connect()?;
    bus_result(query_current_input_method(&controller), "fcitx5: failed to get input method: ")
}

/// Asks fcitx5 to switch to the input method `im`.
pub fn set_input_method(im: &str) -> (r: Result<(), ImSwitchError>)
    ensures
        r matches Err(e) ==> connect_failure(e@) || failed_with(
            e@,
            "fcitx5: failed to set input method: "@,
        ),
{
    let controller = connect()?;
    bus_result(request_current_im(&controller, im), "fcitx5: failed to set input method: ")
}

/// The names in a list of input method entries.
pub open spec fn entry_names(methods: Seq<InputMethodEntry>) -> Seq<Seq<char>> {
    methods.map_values(|m: InputMethodEntry| m.0@)
}

/// The names of the input methods of a list that fcitx5 reported, in order.
pub fn method_names(methods: Vec<InputMethodEntry>) -> (names: Vec<String>)
    ensures
        texts(names@) == entry_names(methods@),
        names@.len() == methods@.len(),
        forall|i: int| 0 <= i < methods@.len() ==> #[trigger] names@[i]@ == methods@[i].0@,
{
    let mut names: Vec<String> = Vec::new();
    let mut i: usize = 0;
    while i < methods.len()
        invariant
            i <= methods@.len(),
            texts(names@) == entry_names(methods@.take(i as int)),
        decreases methods.len() - i,
    {
        let entry = &methods[i];
        let name = entry.0.clone();
        let ghost before = names@;
        names.push(name);
        assert(texts(names@) =~= texts(before).push(name@));
        assert(entry_names(methods@.take(i + 1)) =~= entry_names(methods@.take(i as int)).push(
            name@,
        ));
        i += 1;
    }
    assert(methods@.take(methods@.len() as int) =~= methods@);
    proof {
        law_one_name_per_entry(methods@);
        assert forall|i: int| 0 <= i < methods@.len() implies #[trigger] names@[i]@
            == methods@[i].0@ by {
            assert(texts(names@)[i] == names@[i]@);
        }
    }
    names
}

/// The names of a list of entries are one per entry, in order: the `i`-th
/// name is the first field of the `i`-th entry, whatever its other fields.
pub proof fn law_one_name_per_entry(methods: Seq<InputMethodEntry>)
    ensures
        entry_names(methods).len() == methods.len(),
        forall|i: int| 0 <= i < methods.len() ==> #[trigger] entry_names(methods)[i] == methods[i].0@,
{
}

/// The names of the input methods fcitx5 offers.
pub fn list_input_methods() -> (r: Result<Vec<String>, ImSwitchError>)
    ensures
        r matches Err(e) ==> connect_failure(e@) || failed_with(
            e@,
            "fcitx5: failed to list input methods: "@,
        ),
{
    let controller = connect()?;
    let methods = bus_result(
        query_available_input_methods(&controller),
        "fcitx5: failed to list input methods: ",
    )?;
    Ok(method_names(methods))
}

} // verus!
