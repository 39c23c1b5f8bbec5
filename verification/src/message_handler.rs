//! The message-to-responses pipeline: classify, record, reply.

use crate::currency_handling::currency_formatter::CurrencyFormatter;
use crate::currency_handling::notation::{format_amount_spec, parse_amount_spec};
use crate::message_router::{command_of, strip_slash, MessageRouter};
use crate::models::{
    Balance, BalanceV, Command, Message, MessageAction, Product, ProductV, Rappen, Response,
    TransactionV, User, UserV,
};
use crate::services::balance_service::{balances_fit, balances_of};
use crate::services::product_service::{find_product, ProductService};
use crate::services::storage::{balances_computable, InMemoryStorage, MAX_LEDGER_LEN};
use crate::services::transaction_service::{amount_entry, purchase_entry};
use crate::services::user_service::upsert_users;
use crate::text::string_eq;
use vstd::prelude::*;
use vstd::string::*;

verus! {

/// Reply when the classification itself failed.
pub open spec fn routing_error_text() -> Seq<char> {
    "Internal error (1)"@
}

/// Reply when recording or replying to a recognized action failed.
pub open spec fn action_error_text() -> Seq<char> {
    "Internal error (4)"@
}

/// Reply when no alternative recognized the text.
pub open spec fn invalid_input_text() -> Seq<char> {
    "Invalid input"@
}

/// One catalog listing line: `/{identifier} - {name} ({price})`.
pub open spec fn product_line(p: ProductV) -> Seq<char> {
    "/"@ + p.identifier + " - "@ + p.name + " ("@ + format_amount_spec(p.price) + ")"@
}

pub open spec fn joined_product_lines(ps: Seq<ProductV>) -> Seq<char>
    decreases ps.len(),
{
    if ps.len() == 0 {
        Seq::<char>::empty()
    } else if ps.len() == 1 {
        product_line(ps[0])
    } else {
        joined_product_lines(ps.drop_last()) + "\n"@ + product_line(ps.last())
    }
}

/// The whole catalog listing: a fixed header, then one line per product.
pub open spec fn format_products_spec(ps: Seq<ProductV>) -> Seq<char> {
    "Available products:"@ + "\n"@ + joined_product_lines(ps)
}

/// One balance line, the sender's own wrapped in emphasis markers; who is
/// the sender goes by user id, never by display name.
pub open spec fn balance_line(b: BalanceV, sender_id: Seq<char>) -> Seq<char> {
    let base = "- "@ + b.name + " ("@ + format_amount_spec(b.amount) + ")"@;
    if b.user_id == sender_id {
        "**"@ + base + "**"@
    } else {
        base
    }
}

pub open spec fn joined_balance_lines(bs: Seq<BalanceV>, sender_id: Seq<char>) -> Seq<char>
    decreases bs.len(),
{
    if bs.len() == 0 {
        Seq::<char>::empty()
    } else if bs.len() == 1 {
        balance_line(bs[0], sender_id)
    } else {
        joined_balance_lines(bs.drop_last(), sender_id) + "\n"@ + balance_line(
            bs.last(),
            sender_id,
        )
    }
}

/// The whole stats reply: a fixed header, then one line per user.
pub open spec fn format_balances_spec(bs: Seq<BalanceV>, sender_id: Seq<char>) -> Seq<char> {
    "Current stats:"@ + "\n"@ + joined_balance_lines(bs, sender_id)
}

/// The reply a command owes: the catalog listing, or the balances of the
/// untouched state.
pub open spec fn command_response(
    cmd: Command,
    listing: Seq<ProductV>,
    users: Seq<UserV>,
    ledger: Seq<TransactionV>,
    sender_id: Seq<char>,
) -> Seq<char> {
    match cmd {
        Command::ListAvailableItems => format_products_spec(listing),
        Command::GetCurrentStats => format_balances_spec(balances_of(users, ledger), sender_id),
    }
}

/// The classification itself failed: one routing-error reply, nothing
/// touched. Impossible over an infallible catalog.
pub open spec fn routing_failed_outcome(
    users0: Seq<UserV>,
    ledger0: Seq<TransactionV>,
    users1: Seq<UserV>,
    ledger1: Seq<TransactionV>,
    rs: Seq<Seq<char>>,
) -> bool {
    users1 == users0 && ledger1 == ledger0 && rs.len() == 1 && rs[0] == routing_error_text()
}

/// The two-step write stopped at the append: the directory already holds
/// the sender, the ledger is untouched, one action-error reply.
pub open spec fn write_refused_outcome(
    users0: Seq<UserV>,
    ledger0: Seq<TransactionV>,
    users1: Seq<UserV>,
    ledger1: Seq<TransactionV>,
    sender: UserV,
    rs: Seq<Seq<char>>,
) -> bool {
    users1 == upsert_users(users0, sender) && ledger1 == ledger0 && rs.len() == 1 && rs[0]
        == action_error_text()
}

/// What handling a purchase owes. When the store can take the debit, it
/// is taken: the sender upserted, the debit appended at some timestamp, a
/// confirmation naming the product, and the balances of the new state as
/// a second reply whenever they are computable. When it cannot (ledger
/// full, or a price whose negation does not fit), the write is refused.
/// Only over a fallible catalog may classification fail instead.
pub open spec fn product_outcome(
    users0: Seq<UserV>,
    ledger0: Seq<TransactionV>,
    users1: Seq<UserV>,
    ledger1: Seq<TransactionV>,
    sender: UserV,
    p: ProductV,
    infallible: bool,
    rs: Seq<Seq<char>>,
) -> bool {
    let done = if ledger0.len() < MAX_LEDGER_LEN && p.price != i32::MIN {
        users1 == upsert_users(users0, sender) && (exists|ts: int|
            ledger1 == ledger0.push(#[trigger] purchase_entry(p, sender.id, ts))) && (rs.len() == 1
            || rs.len() == 2) && rs[0] == "Recorded "@ + p.name && (rs.len() == 2 ==> rs[1]
            == format_balances_spec(balances_of(users1, ledger1), sender.id)) && (
        balances_computable(users1, ledger1) ==> rs.len() == 2)
    } else {
        write_refused_outcome(users0, ledger0, users1, ledger1, sender, rs)
    };
    if infallible {
        done
    } else {
        routing_failed_outcome(users0, ledger0, users1, ledger1, rs) || done
    }
}

/// What handling a free-form amount owes: as for a purchase, with the
/// amount exactly as given and the confirmation showing it formatted.
pub open spec fn amount_outcome(
    users0: Seq<UserV>,
    ledger0: Seq<TransactionV>,
    users1: Seq<UserV>,
    ledger1: Seq<TransactionV>,
    sender: UserV,
    v: int,
    infallible: bool,
    rs: Seq<Seq<char>>,
) -> bool {
    let done = if ledger0.len() < MAX_LEDGER_LEN {
        users1 == upsert_users(users0, sender) && (exists|ts: int|
            ledger1 == ledger0.push(#[trigger] amount_entry(v, sender.id, ts))) && (rs.len() == 1
            || rs.len() == 2) && rs[0] == "Recorded "@ + format_amount_spec(v) && (rs.len() == 2
            ==> rs[1] == format_balances_spec(balances_of(users1, ledger1), sender.id)) && (
        balances_computable(users1, ledger1) ==> rs.len() == 2)
    } else {
        write_refused_outcome(users0, ledger0, users1, ledger1, sender, rs)
    };
    if infallible {
        done
    } else {
        routing_failed_outcome(users0, ledger0, users1, ledger1, rs) || done
    }
}

/// Text that no alternative recognized: one fixed reply, nothing touched.
/// Over an infallible catalog the reply is exactly the invalid-input
/// text; only over a fallible one may a lookup failure answer instead.
pub open spec fn unrecognized_outcome(
    users0: Seq<UserV>,
    ledger0: Seq<TransactionV>,
    users1: Seq<UserV>,
    ledger1: Seq<TransactionV>,
    infallible: bool,
    rs: Seq<Seq<char>>,
) -> bool {
    users1 == users0 && ledger1 == ledger0 && rs.len() == 1 && (rs[0] == invalid_input_text()
        || rs[0] == routing_error_text()) && (infallible ==> rs[0] == invalid_input_text())
}

/// Everything one handled message owes, by the classification precedence:
/// commands read and never write — the stats reply is exact, owed
/// whenever the state's balances are computable, and the listing is owed
/// whenever the listing catalog cannot fail; a known product records a
/// debit; a readable amount records itself; anything else is refused
/// politely.
pub open spec fn handle_outcome(
    catalog: Seq<ProductV>,
    listing: Seq<ProductV>,
    router_infallible: bool,
    listing_infallible: bool,
    users0: Seq<UserV>,
    ledger0: Seq<TransactionV>,
    users1: Seq<UserV>,
    ledger1: Seq<TransactionV>,
    sender: UserV,
    c: Seq<char>,
    rs: Seq<Seq<char>>,
) -> bool {
    match command_of(c) {
        Some(cmd) => users1 == users0 && ledger1 == ledger0 && rs.len() == 1 && (match cmd {
            Command::GetCurrentStats => rs[0] == (if balances_computable(users0, ledger0) {
                command_response(cmd, listing, users0, ledger0, sender.id)
            } else {
                action_error_text()
            }),
            Command::ListAvailableItems => (rs[0] == command_response(
                cmd,
                listing,
                users0,
                ledger0,
                sender.id,
            ) || rs[0] == action_error_text()) && (listing_infallible ==> rs[0]
                == command_response(cmd, listing, users0, ledger0, sender.id)),
        }),
        None => match find_product(catalog, strip_slash(c)) {
            Some(p) => product_outcome(
                users0,
                ledger0,
                users1,
                ledger1,
                sender,
                p,
                router_infallible,
                rs,
            ),
            None => match parse_amount_spec(c) {
                Some(v) => if i32::MIN <= v && v <= i32::MAX {
                    amount_outcome(
                        users0,
                        ledger0,
                        users1,
                        ledger1,
                        sender,
                        v,
                        router_infallible,
                        rs,
                    )
                } else {
                    unrecognized_outcome(users0, ledger0, users1, ledger1, router_infallible, rs)
                },
                None => unrecognized_outcome(users0, ledger0, users1, ledger1, router_infallible, rs),
            },
        },
    }
}

pub trait MessageHandler {
    spec fn router_catalog(&self) -> Seq<ProductV>;

    spec fn listing_catalog(&self) -> Seq<ProductV>;

    spec fn router_infallible(&self) -> bool;

    spec fn listing_infallible(&self) -> bool;

    spec fn users_state(&self) -> Seq<UserV>;

    spec fn ledger_state(&self) -> Seq<TransactionV>;

    fn handle_message(&mut self, message: &Message) -> (r: Vec<Response>)
        ensures
            handle_outcome(
                old(self).router_catalog(),
                old(self).listing_catalog(),
                old(self).router_infallible(),
                old(self).listing_infallible(),
                old(self).users_state(),
                old(self).ledger_state(),
                final(self).users_state(),
                final(self).ledger_state(),
                message.sender@,
                message.contents@,
                r.deep_view(),
            ),
            final(self).router_catalog() == old(self).router_catalog(),
            final(self).listing_catalog() == old(self).listing_catalog(),
            final(self).router_infallible() == old(self).router_infallible(),
            final(self).listing_infallible() == old(self).listing_infallible(),
    ;
}

/// The orchestrator: a router for classification, a catalog for the
/// listing command, the in-memory storage, and a formatter for replies.
pub struct MessageHandlerImpl<R: MessageRouter, P: ProductService, F: CurrencyFormatter> {
    pub message_router: R,
    pub product_service: P,
    pub storage: InMemoryStorage,
    pub currency_formatter: F,
}

impl<R: MessageRouter, P: ProductService, F: CurrencyFormatter> MessageHandlerImpl<R, P, F> {
    pub fn new(
        message_router: R,
        product_service: P,
        storage: InMemoryStorage,
        currency_formatter: F,
    ) -> (r: Self)
        ensures
            r.message_router == message_router,
            r.product_service == product_service,
            r.storage == storage,
            r.currency_formatter == currency_formatter,
    {
        Self { message_router, product_service, storage, currency_formatter }
    }

    /// The catalog listing reply.
    pub fn format_products(&self, products: &Vec<Product>) -> (r: String)
        ensures
            r@ == format_products_spec(products.deep_view()),
    {
        let ghost ps = products.deep_view();
        let mut r = String::from_str("Available products:");
        r.append("\n");
        proof {
            assert(r@ =~= "Available products:"@ + "\n"@ + joined_product_lines(ps.take(0)));
        }
        let mut i: usize = 0;
        while i < products.len()
            invariant
                i <= products.len(),
                ps == products.deep_view(),
                r@ == "Available products:"@ + "\n"@ + joined_product_lines(ps.take(i as int)),
            decreases products.len() - i,
        {
            if i > 0 {
                r.append("\n");
            }
            let p = &products[i];
            r.append("/");
            r.append(p.identifier.as_str());
            r.append(" - ");
            r.append(p.name.as_str());
            r.append(" (");
            let price = self.currency_formatter.format_amount(p.price);
            r.append(price.as_str());
            r.append(")");
            proof {
                let t = ps.take(i as int + 1);
                assert(t.drop_last() =~= ps.take(i as int));
                assert(t.last() == ps[i as int]);
                assert(r@ =~= "Available products:"@ + "\n"@ + joined_product_lines(t));
            }
            i += 1;
        }
        proof {
            assert(ps.take(products.len() as int) =~= ps);
        }
        r
    }

    /// The stats reply, the sender's own line emphasized.
    pub fn format_balances(&self, balances: &Vec<Balance>, sender: &User) -> (r: String)
        ensures
            r@ == format_balances_spec(balances.deep_view(), sender.id@),
    {
        let ghost bs = balances.deep_view();
        let mut r = String::from_str("Current stats:");
        r.append("\n");
        proof {
            assert(r@ =~= "Current stats:"@ + "\n"@ + joined_balance_lines(bs.take(0), sender.id@));
        }
        let mut i: usize = 0;
        while i < balances.len()
            invariant
                i <= balances.len(),
                bs == balances.deep_view(),
                r@ == "Current stats:"@ + "\n"@ + joined_balance_lines(
                    bs.take(i as int),
                    sender.id@,
                ),
            decreases balances.len() - i,
        {
            if i > 0 {
                r.append("\n");
            }
            let b = &balances[i];
            let mut line = String::from_str("- ");
            line.append(b.name.as_str());
            line.append(" (");
            let amount = self.currency_formatter.format_amount(b.amount);
            line.append(amount.as_str());
            line.append(")");
            if string_eq(b.user_id.as_str(), sender.id.as_str()) {
                r.append("**");
                r.append(line.as_str());
                r.append("**");
            } else {
                r.append(line.as_str());
            }
            proof {
                let t = bs.take(i as int + 1);
                assert(t.drop_last() =~= bs.take(i as int));
                assert(t.last() == bs[i as int]);
                assert(r@ =~= "Current stats:"@ + "\n"@ + joined_balance_lines(t, sender.id@));
            }
            i += 1;
        }
        proof {
            assert(bs.take(balances.len() as int) =~= bs);
        }
        r
    }

    /// Answers a query command; reads, never writes.
    pub fn handle_command(&self, command: &Command, sender: &User) -> (r: Result<Response, ()>)
        ensures
            r matches Ok(resp) ==> resp@ == command_response(
                *command,
                self.product_service.catalog(),
                self.storage.users_v(),
                self.storage.ledger_v(),
                sender.id@,
            ),
            *command == Command::GetCurrentStats ==> (r is Ok <==> balances_computable(
                self.storage.users_v(),
                self.storage.ledger_v(),
            )),
            *command == Command::ListAvailableItems && self.product_service.infallible() ==> r
                is Ok,
    {
        match command {
            Command::ListAvailableItems => match self.product_service.get_available_products() {
                Ok(products) => Ok(Response { contents: self.format_products(&products) }),
                Err(()) => Err(()),
            },
            Command::GetCurrentStats => match self.storage.compute_balances() {
                Ok(balances) => Ok(Response { contents: self.format_balances(&balances, sender) }),
                Err(()) => Err(()),
            },
        }
    }

    /// Records a purchase: the product's price debited, the product named.
    pub fn handle_product(&mut self, product: &Product, sender: &User) -> (r: Result<Response, ()>)
        ensures
            final(self).storage.users == old(self).storage.users,
            final(self).message_router == old(self).message_router,
            final(self).product_service == old(self).product_service,
            final(self).currency_formatter == old(self).currency_formatter,
            r matches Ok(resp) ==> (exists|ts: int|
                final(self).storage.ledger_v() == old(self).storage.ledger_v().push(
                    #[trigger] purchase_entry(product@, sender.id@, ts),
                )) && resp@ == "Recorded "@ + product@.name,
            r is Err ==> final(self).storage.transactions == old(self).storage.transactions,
            r is Ok <==> old(self).storage.transactions@.len() < MAX_LEDGER_LEN && product@.price
                != i32::MIN,
    {
        match self.storage.append_purchase(product, sender) {
            Ok(()) => {
                let mut contents = String::from_str("Recorded ");
                contents.append(product.name.as_str());
                Ok(Response { contents })
            },
            Err(()) => Err(()),
        }
    }

    /// Records a free-form amount, exactly as given, and confirms it in
    /// the written notation.
    pub fn handle_amount(&mut self, amount: Rappen, sender: &User) -> (r: Result<Response, ()>)
        ensures
            final(self).storage.users == old(self).storage.users,
            final(self).message_router == old(self).message_router,
            final(self).product_service == old(self).product_service,
            final(self).currency_formatter == old(self).currency_formatter,
            r matches Ok(resp) ==> (exists|ts: int|
                final(self).storage.ledger_v() == old(self).storage.ledger_v().push(
                    #[trigger] amount_entry(amount as int, sender.id@, ts),
                )) && resp@ == "Recorded "@ + format_amount_spec(amount as int),
            r is Err ==> final(self).storage.transactions == old(self).storage.transactions,
            r is Ok <==> old(self).storage.transactions@.len() < MAX_LEDGER_LEN,
    {
        match self.storage.append_amount(amount, sender) {
            Ok(()) => {
                let formatted = self.currency_formatter.format_amount(amount);
                let mut contents = String::from_str("Recorded ");
                contents.append(formatted.as_str());
                Ok(Response { contents })
            },
            Err(()) => Err(()),
        }
    }

    /// Carries one recognized action through: commands only read; the two
    /// write actions first upsert the sender, then append, then fetch the
    /// new balances best-effort.
    pub fn handle_message_action(&mut self, action: MessageAction, sender: &User) -> (r: Result<
        Vec<Response>,
        (),
    >)
        ensures
            final(self).message_router == old(self).message_router,
            final(self).product_service == old(self).product_service,
            final(self).currency_formatter == old(self).currency_formatter,
            match action {
                MessageAction::Command(cmd) => final(self).storage == old(self).storage && (match r {
                    Ok(v) => v.deep_view().len() == 1 && v.deep_view()[0] == command_response(
                        cmd,
                        old(self).product_service.catalog(),
                        old(self).storage.users_v(),
                        old(self).storage.ledger_v(),
                        sender.id@,
                    ),
                    Err(()) => true,
                }),
                MessageAction::Product(product) => match r {
                    Ok(v) => final(self).storage.users_v() == upsert_users(
                        old(self).storage.users_v(),
                        sender@,
                    ) && (exists|ts: int|
                        final(self).storage.ledger_v() == old(self).storage.ledger_v().push(
                            #[trigger] purchase_entry(product@, sender.id@, ts),
                        )) && (v.deep_view().len() == 1 || v.deep_view().len() == 2)
                        && v.deep_view()[0] == "Recorded "@ + product@.name && (v.deep_view().len()
                        == 2 ==> v.deep_view()[1] == format_balances_spec(
                        balances_of(final(self).storage.users_v(), final(self).storage.ledger_v()),
                        sender.id@,
                    )) && (balances_computable(
                        final(self).storage.users_v(),
                        final(self).storage.ledger_v(),
                    ) ==> v.deep_view().len() == 2),
                    Err(()) => final(self).storage.transactions == old(self).storage.transactions
                        && final(self).storage.users_v() == upsert_users(
                        old(self).storage.users_v(),
                        sender@,
                    ),
                },
                MessageAction::Amount(amount) => match r {
                    Ok(v) => final(self).storage.users_v() == upsert_users(
                        old(self).storage.users_v(),
                        sender@,
                    ) && (exists|ts: int|
                        final(self).storage.ledger_v() == old(self).storage.ledger_v().push(
                            #[trigger] amount_entry(amount as int, sender.id@, ts),
                        )) && (v.deep_view().len() == 1 || v.deep_view().len() == 2)
                        && v.deep_view()[0] == "Recorded "@ + format_amount_spec(amount as int) && (
                    v.deep_view().len() == 2 ==> v.deep_view()[1] == format_balances_spec(
                        balances_of(final(self).storage.users_v(), final(self).storage.ledger_v()),
                        sender.id@,
                    )) && (balances_computable(
                        final(self).storage.users_v(),
                        final(self).storage.ledger_v(),
                    ) ==> v.deep_view().len() == 2),
                    Err(()) => final(self).storage.transactions == old(self).storage.transactions
                        && final(self).storage.users_v() == upsert_users(
                        old(self).storage.users_v(),
                        sender@,
                    ),
                },
            },
            action matches MessageAction::Product(product) ==> (r is Ok <==> old(
                self,
            ).storage.transactions@.len() < MAX_LEDGER_LEN && product@.price != i32::MIN),
            action matches MessageAction::Amount(amount) ==> (r is Ok <==> old(
                self,
            ).storage.transactions@.len() < MAX_LEDGER_LEN),
            action matches MessageAction::Command(Command::GetCurrentStats) ==> (r is Ok
                <==> balances_computable(old(self).storage.users_v(), old(self).storage.ledger_v())),
            action matches MessageAction::Command(Command::ListAvailableItems) && old(
                self,
            ).product_service.infallible() ==> r is Ok,
    {
        match action {
            MessageAction::Command(command) => {
                match self.handle_command(&command, sender) {
                    Ok(response) => {
                        let ghost text = response@;
                        let mut responses: Vec<Response> = Vec::new();
                        responses.push(response);
                        proof {
                            assert(responses.deep_view() =~= seq![text]);
                        }
                        Ok(responses)
                    },
                    Err(()) => Err(()),
                }
            },
            MessageAction::Product(product) => {
                self.storage.upsert_user(sender);
                match self.handle_product(&product, sender) {
                    Ok(response) => {
                        let ghost text = response@;
                        let mut responses: Vec<Response> = Vec::new();
                        responses.push(response);
                        proof {
                            assert(responses.deep_view() =~= seq![text]);
                        }
                        match self.storage.compute_balances() {
                            Ok(balances) => {
                                let ghost sofar = responses.deep_view();
                                let stats = self.format_balances(&balances, sender);
                                let ghost statsv = stats@;
                                responses.push(Response { contents: stats });
                                proof {
                                    assert(responses.deep_view() =~= sofar.push(statsv));
                                }
                            },
                            Err(()) => {},
                        }
                        Ok(responses)
                    },
                    Err(()) => Err(()),
                }
            },
            MessageAction::Amount(amount) => {
                self.storage.upsert_user(sender);
                match self.handle_amount(amount, sender) {
                    Ok(response) => {
                        let ghost text = response@;
                        let mut responses: Vec<Response> = Vec::new();
                        responses.push(response);
                        proof {
                            assert(responses.deep_view() =~= seq![text]);
                        }
                        match self.storage.compute_balances() {
                            Ok(balances) => {
                                let ghost sofar = responses.deep_view();
                                let stats = self.format_balances(&balances, sender);
                                let ghost statsv = stats@;
                                responses.push(Response { contents: stats });
                                proof {
                                    assert(responses.deep_view() =~= sofar.push(statsv));
                                }
                            },
                            Err(()) => {},
                        }
                        Ok(responses)
                    },
                    Err(()) => Err(()),
                }
            },
        }
    }
}

impl<R: MessageRouter, P: ProductService, F: CurrencyFormatter> MessageHandler for MessageHandlerImpl<
    R,
    P,
    F,
> {
    open spec fn router_catalog(&self) -> Seq<ProductV> {
        self.message_router.catalog()
    }

    open spec fn listing_catalog(&self) -> Seq<ProductV> {
        self.product_service.catalog()
    }

    open spec fn router_infallible(&self) -> bool {
        self.message_router.infallible()
    }

    open spec fn listing_infallible(&self) -> bool {
        self.product_service.infallible()
    }

    open spec fn users_state(&self) -> Seq<UserV> {
        self.storage.users_v()
    }

    open spec fn ledger_state(&self) -> Seq<TransactionV> {
        self.storage.ledger_v()
    }

    fn handle_message(&mut self, message: &Message) -> (r: Vec<Response>) {
        match self.message_router.route_message(message) {
            Err(()) => {
                let mut responses: Vec<Response> = Vec::new();
                responses.push(Response { contents: String::from_str("Internal error (1)") });
                proof {
                    assert(responses.deep_view() =~= seq![routing_error_text()]);
                }
                responses
            },
            Ok(None) => {
                let mut responses: Vec<Response> = Vec::new();
                responses.push(Response { contents: String::from_str("Invalid input") });
                proof {
                    assert(responses.deep_view() =~= seq![invalid_input_text()]);
                }
                responses
            },
            Ok(Some(action)) => {
                match self.handle_message_action(action, &message.sender) {
                    Ok(responses) => responses,
                    Err(()) => {
                        let mut responses: Vec<Response> = Vec::new();
                        responses.push(
                            Response { contents: String::from_str("Internal error (4)") },
                        );
                        proof {
                            assert(responses.deep_view() =~= seq![action_error_text()]);
                        }
                        responses
                    },
                }
            },
        }
    }
}

} // verus!
