//! What holds of the ledger as a whole: every mint's supply is backed by the
//! balances of the token accounts that refer to it, whatever instructions
//! are applied and in whatever order.

use vstd::prelude::*;
use crate::account::AccountView;
use crate::consts::CONFIG_ACCOUNT;
use crate::error::NanoTokenError;
use crate::ix::burn::spec_burn;
use crate::codec::spec_zeros;
use crate::ix::close_account::spec_close_account;
use crate::ix::initialize_account::spec_initialize_account_at;
use crate::ix::initialize_config::spec_initialize_config;
use crate::ix::initialize_mint::spec_initialize_mint;
use crate::ix::{spec_decode, InstructionView};
use crate::processor::{
    lemma_execute_frame, spec_config_at_end, spec_execute, spec_process, spec_run,
};
use crate::state::AccountDiscriminator;
use crate::ix::mint::spec_mint;
use crate::ix::transfer::spec_transfer;
use crate::state::{Mint, MintView, ProgramConfig, TokenAccount, TokenAccountView};

verus! {

/// What the account `a` holds of the mint with index `mint`: its balance if
/// it is a token account of that mint, nothing otherwise.
pub open spec fn balance_in(a: AccountView, mint: u64) -> nat {
    if a.is_token() && a.token().mint == mint {
        a.token().balance as nat
    } else {
        0
    }
}

/// The sum of the balances of all token accounts in `s` that refer to the
/// mint with index `mint`.
pub open spec fn total_balance(s: Seq<AccountView>, mint: u64) -> nat
    decreases s.len(),
{
    if s.len() == 0 {
        0
    } else {
        total_balance(s.drop_last(), mint) + balance_in(s.last(), mint)
    }
}

/// The mint counter that the account `a` holds: that of its configuration
/// record, or zero while it holds none.
pub open spec fn counter_at(a: AccountView) -> nat {
    if a.is_config() {
        a.config().mint_index as nat
    } else {
        0
    }
}

/// Every address in `s` has 32 bytes.
pub open spec fn wf_accounts(s: Seq<AccountView>) -> bool {
    forall|i: int| 0 <= i < s.len() ==> (#[trigger] s[i]).key.len() == 32
}

/// At most one account of `s` stands at the configuration's address.
pub open spec fn config_unique(s: Seq<AccountView>) -> bool {
    forall|i: int, j: int|
        #![trigger s[i], s[j]]
        0 <= i < s.len() && 0 <= j < s.len() && s[i].key == CONFIG_ACCOUNT@ && s[j].key
            == CONFIG_ACCOUNT@ ==> i == j
}

/// A configuration record stands nowhere but at the configuration's address.
pub open spec fn config_in_place(s: Seq<AccountView>) -> bool {
    forall|c: int| 0 <= c < s.len() && (#[trigger] s[c]).is_config() ==> s[c].key == CONFIG_ACCOUNT@
}

/// Every mint's index lies below the mint counter.
pub open spec fn mints_below_counter(s: Seq<AccountView>) -> bool {
    forall|c: int, m: int|
        #![trigger s[c], s[m]]
        0 <= c < s.len() && 0 <= m < s.len() && s[c].key == CONFIG_ACCOUNT@ && s[m].is_mint()
            ==> s[m].mint().mint_index < counter_at(s[c])
}

/// A token account that refers to an index not given out yet is empty.
pub open spec fn unissued_empty(s: Seq<AccountView>) -> bool {
    forall|c: int, t: int|
        #![trigger s[c], s[t]]
        0 <= c < s.len() && 0 <= t < s.len() && s[c].key == CONFIG_ACCOUNT@ && s[t].is_token()
            && s[t].token().mint >= counter_at(s[c]) ==> s[t].token().balance == 0
}

/// No two mints share an index.
pub open spec fn mints_distinct(s: Seq<AccountView>) -> bool {
    forall|m: int, n: int|
        #![trigger s[m], s[n]]
        0 <= m < s.len() && 0 <= n < s.len() && s[m].is_mint() && s[n].is_mint()
            && s[m].mint().mint_index == s[n].mint().mint_index ==> m == n
}

/// Some mint of `s` has the index `index`.
pub open spec fn has_mint(s: Seq<AccountView>, index: nat) -> bool {
    exists|m: int|
        0 <= m < s.len() && (#[trigger] s[m]).is_mint() && s[m].mint().mint_index == index
}

/// Every index below the mint counter has been given to a mint: the indices
/// are dense.
pub open spec fn mints_dense(s: Seq<AccountView>) -> bool {
    forall|c: int, index: nat|
        #![trigger s[c], has_mint(s, index)]
        0 <= c < s.len() && s[c].key == CONFIG_ACCOUNT@ && index < counter_at(s[c]) ==> has_mint(
            s,
            index,
        )
}

/// The supply of the mint at position `m` equals the sum of the balances of
/// the token accounts that refer to it.
pub open spec fn supply_backed_at(s: Seq<AccountView>, m: int) -> bool {
    s[m].mint().supply == total_balance(s, s[m].mint().mint_index)
}

/// Every mint's supply equals the sum of the balances of the token accounts
/// that refer to it.
pub open spec fn supply_backed(s: Seq<AccountView>) -> bool {
    forall|m: int| 0 <= m < s.len() && (#[trigger] s[m]).is_mint() ==> supply_backed_at(s, m)
}

/// The ledger is consistent: the configuration is a singleton at its
/// address, the mint indices are exactly the numbers below the counter, each
/// given once, and every supply is backed by balances.
pub open spec fn ledger_inv(s: Seq<AccountView>) -> bool {
    &&& wf_accounts(s)
    &&& config_unique(s)
    &&& config_in_place(s)
    &&& mints_below_counter(s)
    &&& unissued_empty(s)
    &&& mints_distinct(s)
    &&& mints_dense(s)
    &&& supply_backed(s)
}

/// Replacing one account changes the total by the difference between what
/// the new and the old account hold.
pub proof fn lemma_total_update(s: Seq<AccountView>, i: int, a: AccountView, mint: u64)
    requires
        0 <= i < s.len(),
    ensures
        total_balance(s.update(i, a), mint) == total_balance(s, mint) - balance_in(s[i], mint)
            + balance_in(a, mint),
    decreases s.len(),
{
    let t = s.update(i, a);
    if i == s.len() - 1 {
        assert(t.drop_last() =~= s.drop_last());
    } else {
        assert(t.drop_last() =~= s.drop_last().update(i, a));
        lemma_total_update(s.drop_last(), i, a, mint);
    }
}

/// No account holds more of a mint than all accounts together.
pub proof fn lemma_total_bounds(s: Seq<AccountView>, i: int, mint: u64)
    requires
        0 <= i < s.len(),
    ensures
        balance_in(s[i], mint) <= total_balance(s, mint),
    decreases s.len(),
{
    if i < s.len() - 1 {
        lemma_total_bounds(s.drop_last(), i, mint);
    }
}

/// Where no account holds anything of a mint, the total is zero.
pub proof fn lemma_total_zero(s: Seq<AccountView>, mint: u64)
    requires
        forall|i: int| 0 <= i < s.len() ==> balance_in(#[trigger] s[i], mint) == 0,
    ensures
        total_balance(s, mint) == 0,
    decreases s.len(),
{
    if s.len() > 0 {
        assert forall|i: int| 0 <= i < s.drop_last().len() implies balance_in(
            #[trigger] s.drop_last()[i],
            mint,
        ) == 0 by {
            assert(s.drop_last()[i] == s[i]);
        }
        lemma_total_zero(s.drop_last(), mint);
    }
}

/// Writing a token account over a token account leaves a token account that
/// holds what was written; nothing else of the account changes.
pub proof fn lemma_with_token(a: AccountView, v: TokenAccountView)
    requires
        TokenAccount::spec_valid(a.data),
        v.wf(),
    ensures
        ({
            let b = a.with_token(v);
            &&& b.key == a.key
            &&& b.owner == a.owner
            &&& b.is_signer == a.is_signer
            &&& b.lamports == a.lamports
            &&& TokenAccount::spec_valid(b.data)
            &&& !Mint::spec_valid(b.data)
            &&& !ProgramConfig::spec_valid(b.data)
            &&& b.token() == v
        }),
{
    TokenAccount::lemma_store(a.data, v);
}

/// Writing a mint over a mint leaves a mint that holds what was written;
/// nothing else of the account changes.
pub proof fn lemma_with_mint(a: AccountView, v: MintView)
    requires
        Mint::spec_valid(a.data),
        v.wf(),
    ensures
        ({
            let b = a.with_mint(v);
            &&& b.key == a.key
            &&& b.owner == a.owner
            &&& b.is_signer == a.is_signer
            &&& b.lamports == a.lamports
            &&& Mint::spec_valid(b.data)
            &&& !TokenAccount::spec_valid(b.data)
            &&& !ProgramConfig::spec_valid(b.data)
            &&& b.mint() == v
        }),
{
    Mint::lemma_store(a.data, v);
}

/// Writing a configuration over a configuration leaves a configuration that
/// holds what was written; nothing else of the account changes.
pub proof fn lemma_with_config(a: AccountView, v: ProgramConfig)
    requires
        ProgramConfig::spec_valid(a.data),
    ensures
        ({
            let b = a.with_config(v);
            &&& b.key == a.key
            &&& b.owner == a.owner
            &&& b.is_signer == a.is_signer
            &&& b.lamports == a.lamports
            &&& ProgramConfig::spec_valid(b.data)
            &&& !TokenAccount::spec_valid(b.data)
            &&& !Mint::spec_valid(b.data)
            &&& b.config() == v
        }),
{
    ProgramConfig::lemma_store(a.data, v);
}

/// A storage without records is a consistent ledger, provided that at most
/// one of its accounts stands at the configuration's address.
pub proof fn lemma_blank_ledger(s: Seq<AccountView>)
    requires
        wf_accounts(s),
        config_unique(s),
        forall|i: int|
            0 <= i < s.len() ==> !(#[trigger] s[i]).is_config() && !s[i].is_mint()
                && !s[i].is_token(),
    ensures
        ledger_inv(s),
{
}

/// Replacing two accounts changes the total by the differences between what
/// the new and the old accounts hold.
pub proof fn lemma_total_update2(
    s: Seq<AccountView>,
    p: int,
    a: AccountView,
    q: int,
    b: AccountView,
    mint: u64,
)
    requires
        0 <= p < s.len(),
        0 <= q < s.len(),
        p != q,
    ensures
        total_balance(s.update(p, a).update(q, b), mint) == total_balance(s, mint) - balance_in(
            s[p],
            mint,
        ) + balance_in(a, mint) - balance_in(s[q], mint) + balance_in(b, mint),
{
    lemma_total_update(s, p, a, mint);
    lemma_total_update(s.update(p, a), q, b, mint);
}

/// The account `b` stands where `a` stood and is a record of the same kind
/// with the same identity: the same index, authority and decimals for a
/// mint, the same owner and mint for a token account. Only amounts may
/// differ.
pub open spec fn same_shape(a: AccountView, b: AccountView) -> bool {
    &&& b.key == a.key
    &&& b.is_config() == a.is_config()
    &&& counter_at(b) == counter_at(a)
    &&& b.is_mint() == a.is_mint()
    &&& a.is_mint() ==> {
        &&& b.mint().mint_index == a.mint().mint_index
        &&& b.mint().authority == a.mint().authority
        &&& b.mint().decimals == a.mint().decimals
    }
    &&& b.is_token() == a.is_token()
    &&& a.is_token() ==> {
        &&& b.token().mint == a.token().mint
        &&& b.token().owner == a.token().owner
    }
}

/// Nothing that the ledger has recorded is taken back: every account keeps
/// its address, the mint counter does not fall, a configuration stays a
/// configuration, a mint stays a mint with its index, authority and decimals,
/// and a token account stays a token account of its owner and mint.
pub open spec fn records_kept(s: Seq<AccountView>, post: Seq<AccountView>) -> bool {
    &&& post.len() == s.len()
    &&& forall|i: int|
        0 <= i < s.len() ==> {
            &&& (#[trigger] post[i]).key == s[i].key
            &&& counter_at(post[i]) >= counter_at(s[i])
            &&& s[i].is_config() ==> post[i].is_config()
            &&& s[i].is_mint() ==> {
                &&& post[i].is_mint()
                &&& post[i].mint().mint_index == s[i].mint().mint_index
                &&& post[i].mint().authority == s[i].mint().authority
                &&& post[i].mint().decimals == s[i].mint().decimals
            }
            &&& s[i].is_token() ==> {
                &&& post[i].is_token()
                &&& post[i].token().mint == s[i].token().mint
                &&& post[i].token().owner == s[i].token().owner
            }
        }
}

/// A change of amounts alone keeps a consistent ledger consistent, provided
/// that supplies stay backed and unissued indices stay empty.
pub proof fn lemma_same_shape_keeps_ledger(s: Seq<AccountView>, post: Seq<AccountView>)
    requires
        ledger_inv(s),
        post.len() == s.len(),
        forall|i: int| 0 <= i < s.len() ==> same_shape(s[i], #[trigger] post[i]),
        unissued_empty(post),
        supply_backed(post),
    ensures
        ledger_inv(post),
{
    assert forall|i: int, j: int|
        #![trigger post[i], post[j]]
        0 <= i < post.len() && 0 <= j < post.len() && post[i].key == CONFIG_ACCOUNT@
            && post[j].key == CONFIG_ACCOUNT@ implies i == j by {
        assert(same_shape(s[i], post[i]) && same_shape(s[j], post[j]));
    }
    assert forall|c: int|
        0 <= c < post.len() && (#[trigger] post[c]).is_config() implies post[c].key
        == CONFIG_ACCOUNT@ by {
        assert(same_shape(s[c], post[c]));
    }
    assert forall|c: int, m: int|
        #![trigger post[c], post[m]]
        0 <= c < post.len() && 0 <= m < post.len() && post[c].key == CONFIG_ACCOUNT@
            && post[m].is_mint() implies post[m].mint().mint_index < counter_at(post[c]) by {
        assert(same_shape(s[c], post[c]) && same_shape(s[m], post[m]));
    }
    assert forall|m: int, n: int|
        #![trigger post[m], post[n]]
        0 <= m < post.len() && 0 <= n < post.len() && post[m].is_mint() && post[n].is_mint()
            && post[m].mint().mint_index == post[n].mint().mint_index implies m == n by {
        assert(same_shape(s[m], post[m]) && same_shape(s[n], post[n]));
    }
    assert forall|i: int| 0 <= i < post.len() implies (#[trigger] post[i]).key.len() == 32 by {
        assert(same_shape(s[i], post[i]));
    }
    assert forall|c: int, index: nat|
        #![trigger post[c], has_mint(post, index)]
        0 <= c < post.len() && post[c].key == CONFIG_ACCOUNT@ && index < counter_at(
            post[c],
        ) implies has_mint(post, index) by {
        assert(same_shape(s[c], post[c]));
        assert(has_mint(s, index));
        let m = choose|m: int|
            0 <= m < s.len() && (#[trigger] s[m]).is_mint() && s[m].mint().mint_index == index;
        assert(same_shape(s[m], post[m]));
    }
}

/// `Mint` adds the amount to the supply and to the balance, and changes
/// nothing else.
pub proof fn lemma_mint_effect(s: Seq<AccountView>, h: Seq<usize>, ai: int, amount: u64)
    requires
        0 <= ai,
        spec_mint(s, h, ai, amount) is Ok,
    ensures
        ({
            let post = spec_mint(s, h, ai, amount).unwrap();
            let p = h[ai] as int;
            let q = h[ai + 1] as int;
            &&& 0 <= p < s.len() && 0 <= q < s.len()
            &&& post.len() == s.len()
            &&& forall|i: int| 0 <= i < s.len() && i != p && i != q ==> post[i] == s[i]
            &&& p != q
            &&& s[p].is_mint() && s[q].is_token()
            &&& s[q].token().mint == s[p].mint().mint_index
            &&& same_shape(s[p], post[p]) && same_shape(s[q], post[q])
            &&& post[p].mint().supply == s[p].mint().supply + amount
            &&& post[q].token().balance == s[q].token().balance + amount
        }),
{
    let p = h[ai] as int;
    let q = h[ai + 1] as int;
    let mint = s[p];
    let token = s[q];
    lemma_with_mint(mint, MintView { supply: (mint.mint().supply + amount) as u64, ..mint.mint() });
    lemma_with_token(
        token,
        TokenAccountView { balance: (token.token().balance + amount) as u64, ..token.token() },
    );
}

/// `Burn` takes the amount from the supply and from the balance, and
/// changes nothing else.
pub proof fn lemma_burn_effect(s: Seq<AccountView>, h: Seq<usize>, ai: int, amount: u64)
    requires
        0 <= ai,
        spec_burn(s, h, ai, amount) is Ok,
    ensures
        ({
            let post = spec_burn(s, h, ai, amount).unwrap();
            let p = h[ai] as int;
            let q = h[ai + 1] as int;
            &&& 0 <= p < s.len() && 0 <= q < s.len()
            &&& post.len() == s.len()
            &&& forall|i: int| 0 <= i < s.len() && i != p && i != q ==> post[i] == s[i]
            &&& p != q
            &&& s[p].is_mint() && s[q].is_token()
            &&& s[q].token().mint == s[p].mint().mint_index
            &&& same_shape(s[p], post[p]) && same_shape(s[q], post[q])
            &&& post[p].mint().supply == s[p].mint().supply - amount
            &&& post[q].token().balance == s[q].token().balance - amount
        }),
{
    let p = h[ai] as int;
    let q = h[ai + 1] as int;
    let mint = s[p];
    let token = s[q];
    lemma_with_mint(mint, MintView { supply: (mint.mint().supply - amount) as u64, ..mint.mint() });
    lemma_with_token(
        token,
        TokenAccountView { balance: (token.token().balance - amount) as u64, ..token.token() },
    );
}

/// `Transfer` conserves the sum of the two balances: what leaves the source
/// arrives at the destination, and nothing else changes. Where the two are
/// one account, nothing changes at all.
pub proof fn lemma_transfer_conserves(s: Seq<AccountView>, h: Seq<usize>, ai: int, amount: u64)
    requires
        0 <= ai,
        spec_transfer(s, h, ai, amount) is Ok,
    ensures
        ({
            let post = spec_transfer(s, h, ai, amount).unwrap();
            let p = h[ai] as int;
            let q = h[ai + 1] as int;
            &&& 0 <= p < s.len() && 0 <= q < s.len()
            &&& post.len() == s.len()
            &&& forall|i: int| 0 <= i < s.len() && i != p && i != q ==> post[i] == s[i]
            &&& TokenAccount::spec_valid(s[p].data) && TokenAccount::spec_valid(s[q].data)
            &&& s[p].token().mint == s[q].token().mint
            &&& s[p].token().balance >= amount
            &&& p == q ==> post == s
            &&& p != q ==> s[p].is_token() && s[q].is_token()
            &&& p != q ==> post[p].token().balance == s[p].token().balance - amount
            &&& p != q ==> post[q].token().balance == s[q].token().balance + amount
            &&& same_shape(s[p], post[p]) && same_shape(s[q], post[q])
            &&& post[p].token().balance + post[q].token().balance == s[p].token().balance
                + s[q].token().balance
        }),
{
    let p = h[ai] as int;
    let q = h[ai + 1] as int;
    let src = s[p];
    let dest = s[q];
    if p != q {
        lemma_with_token(
            src,
            TokenAccountView { balance: (src.token().balance - amount) as u64, ..src.token() },
        );
        lemma_with_token(
            dest,
            TokenAccountView { balance: (dest.token().balance + amount) as u64, ..dest.token() },
        );
    }
}

/// `CloseAccount` conserves balance and value: the destination gains
/// exactly what the target held, and the target is left with a balance of
/// zero and no value resource. Nothing else changes.
pub proof fn lemma_close_account_conserves(s: Seq<AccountView>, h: Seq<usize>, ai: int)
    requires
        0 <= ai,
        spec_close_account(s, h, ai) is Ok,
    ensures
        ({
            let post = spec_close_account(s, h, ai).unwrap();
            let p = h[ai] as int;
            let q = h[ai + 1] as int;
            &&& 0 <= p < s.len() && 0 <= q < s.len()
            &&& post.len() == s.len()
            &&& forall|i: int| 0 <= i < s.len() && i != p && i != q ==> post[i] == s[i]
            &&& p != q
            &&& s[p].is_token() && s[q].is_token()
            &&& s[p].token().mint == s[q].token().mint
            &&& same_shape(s[p], post[p]) && same_shape(s[q], post[q])
            &&& post[q].token().balance == s[q].token().balance + s[p].token().balance
            &&& post[p].token().balance == 0
            &&& post[q].lamports == s[q].lamports + s[p].lamports
            &&& post[p].lamports == 0
        }),
{
    let p = h[ai] as int;
    let q = h[ai + 1] as int;
    let target = s[p];
    let dest = s[q];
    lemma_with_token(target, TokenAccountView { balance: 0, ..target.token() });
    lemma_with_token(
        dest,
        TokenAccountView {
            balance: (dest.token().balance + target.token().balance) as u64,
            ..dest.token()
        },
    );
}

/// Closing a closed account again moves nothing: the second `CloseAccount`
/// succeeds and leaves every account as the first left it.
pub proof fn lemma_close_account_idempotent(s: Seq<AccountView>, h: Seq<usize>, ai: int)
    requires
        0 <= ai,
        spec_close_account(s, h, ai) is Ok,
    ensures
        spec_close_account(spec_close_account(s, h, ai).unwrap(), h, ai) == Ok::<
            Seq<AccountView>,
            NanoTokenError,
        >(spec_close_account(s, h, ai).unwrap()),
{
    let post = spec_close_account(s, h, ai).unwrap();
    let p = h[ai] as int;
    let q = h[ai + 1] as int;
    let o = h[ai + 2] as int;
    lemma_close_account_conserves(s, h, ai);
    assert(post[o].is_signer == s[o].is_signer && post[o].key == s[o].key);
    TokenAccount::lemma_store_loaded(post[p].data);
    TokenAccount::lemma_store_loaded(post[q].data);
    let again = spec_close_account(post, h, ai);
    assert(again is Ok);
    assert(TokenAccountView { balance: 0, ..post[p].token() } == post[p].token());
    assert(TokenAccountView {
        balance: (post[q].token().balance + post[p].token().balance) as u64,
        ..post[q].token()
    } == post[q].token());
    assert(again.unwrap() =~= post);
}

/// `Mint` keeps the supply of its mint backed: where the supply equalled the
/// sum of the balances before, it does so afterwards.
pub proof fn lemma_mint_keeps_supply_backed(
    s: Seq<AccountView>,
    h: Seq<usize>,
    ai: int,
    amount: u64,
)
    requires
        0 <= ai,
        spec_mint(s, h, ai, amount) is Ok,
        supply_backed_at(s, h[ai] as int),
    ensures
        supply_backed_at(spec_mint(s, h, ai, amount).unwrap(), h[ai] as int),
{
    let post = spec_mint(s, h, ai, amount).unwrap();
    let p = h[ai] as int;
    let q = h[ai + 1] as int;
    lemma_mint_effect(s, h, ai, amount);
    lemma_total_update2(s, p, post[p], q, post[q], s[p].mint().mint_index);
    assert(post =~= s.update(p, post[p]).update(q, post[q]));
}

/// `Burn` keeps the supply of its mint backed: where the supply equalled the
/// sum of the balances before, it does so afterwards.
pub proof fn lemma_burn_keeps_supply_backed(
    s: Seq<AccountView>,
    h: Seq<usize>,
    ai: int,
    amount: u64,
)
    requires
        0 <= ai,
        spec_burn(s, h, ai, amount) is Ok,
        supply_backed_at(s, h[ai] as int),
    ensures
        supply_backed_at(spec_burn(s, h, ai, amount).unwrap(), h[ai] as int),
{
    let post = spec_burn(s, h, ai, amount).unwrap();
    let p = h[ai] as int;
    let q = h[ai + 1] as int;
    lemma_burn_effect(s, h, ai, amount);
    lemma_total_update2(s, p, post[p], q, post[q], s[p].mint().mint_index);
    assert(post =~= s.update(p, post[p]).update(q, post[q]));
}

/// How much more of the mint with index `mint` the accounts at `p` and `q`
/// hold together in `post` than in `s`.
pub open spec fn holdings_gain(
    s: Seq<AccountView>,
    post: Seq<AccountView>,
    p: int,
    q: int,
    mint: u64,
) -> int {
    balance_in(post[p], mint) - balance_in(s[p], mint) + balance_in(post[q], mint) - balance_in(
        s[q],
        mint,
    )
}

/// The account `a` holds nothing of an index that a counter at `counter`
/// has not given out yet.
pub open spec fn empty_if_unissued(a: AccountView, counter: nat) -> bool {
    a.is_token() && a.token().mint >= counter ==> a.token().balance == 0
}

/// A change of the amounts held at `p` and `q` keeps a consistent ledger
/// consistent where, for every mint, the supply moves by as much as the two
/// accounts' holdings of it together, and no holding of an unissued index
/// becomes positive.
pub proof fn lemma_rebalance_keeps_ledger(
    s: Seq<AccountView>,
    post: Seq<AccountView>,
    p: int,
    q: int,
)
    requires
        ledger_inv(s),
        post.len() == s.len(),
        0 <= p < s.len(),
        0 <= q < s.len(),
        p != q,
        forall|i: int| 0 <= i < s.len() && i != p && i != q ==> post[i] == s[i],
        same_shape(s[p], post[p]),
        same_shape(s[q], post[q]),
        forall|m: int|
            0 <= m < s.len() && (#[trigger] s[m]).is_mint() ==> post[m].mint().supply
                - s[m].mint().supply == holdings_gain(s, post, p, q, s[m].mint().mint_index),
        forall|c: int|
            0 <= c < s.len() && (#[trigger] s[c]).key == CONFIG_ACCOUNT@ ==> empty_if_unissued(
                post[p],
                counter_at(s[c]),
            ) && empty_if_unissued(post[q], counter_at(s[c])),
    ensures
        ledger_inv(post),
{
    assert forall|i: int| 0 <= i < s.len() implies same_shape(s[i], #[trigger] post[i]) by {}
    assert forall|c: int, t: int|
        #![trigger post[c], post[t]]
        0 <= c < post.len() && 0 <= t < post.len() && post[c].key == CONFIG_ACCOUNT@
            && post[t].is_token() && post[t].token().mint >= counter_at(
            post[c],
        ) implies post[t].token().balance == 0 by {
        assert(same_shape(s[c], post[c]));
        assert(s[c].key == CONFIG_ACCOUNT@);
        if t != p && t != q {
            assert(post[t] == s[t]);
            assert(s[t].is_token());
        }
    }
    assert forall|m: int|
        0 <= m < post.len() && (#[trigger] post[m]).is_mint() implies supply_backed_at(post, m) by {
        assert(same_shape(s[m], post[m]));
        assert(s[m].is_mint());
        let x = s[m].mint().mint_index;
        lemma_total_update2(s, p, post[p], q, post[q], x);
        assert(post =~= s.update(p, post[p]).update(q, post[q]));
        assert(supply_backed_at(s, m));
    }
    lemma_same_shape_keeps_ledger(s, post);
}


/// `Mint` keeps a consistent ledger consistent.
pub proof fn lemma_mint_keeps_ledger(s: Seq<AccountView>, h: Seq<usize>, ai: int, amount: u64)
    requires
        0 <= ai,
        ledger_inv(s),
        spec_mint(s, h, ai, amount) is Ok,
    ensures
        ledger_inv(spec_mint(s, h, ai, amount).unwrap()),
{
    let post = spec_mint(s, h, ai, amount).unwrap();
    let p = h[ai] as int;
    let q = h[ai + 1] as int;
    lemma_mint_effect(s, h, ai, amount);
    assert forall|m: int|
        0 <= m < s.len() && (#[trigger] s[m]).is_mint() implies post[m].mint().supply
        - s[m].mint().supply == holdings_gain(s, post, p, q, s[m].mint().mint_index) by {
        if m != p {
            assert(s[p].is_mint());
            assert(s[m].mint().mint_index != s[p].mint().mint_index);
        }
    }
    assert forall|c: int|
        0 <= c < s.len() && (#[trigger] s[c]).key == CONFIG_ACCOUNT@ implies empty_if_unissued(
        post[p],
        counter_at(s[c]),
    ) && empty_if_unissued(post[q], counter_at(s[c])) by {
        assert(s[p].is_mint());
        assert(s[p].mint().mint_index < counter_at(s[c]));
    }
    lemma_rebalance_keeps_ledger(s, post, p, q);
}

/// `Burn` keeps a consistent ledger consistent.
pub proof fn lemma_burn_keeps_ledger(s: Seq<AccountView>, h: Seq<usize>, ai: int, amount: u64)
    requires
        0 <= ai,
        ledger_inv(s),
        spec_burn(s, h, ai, amount) is Ok,
    ensures
        ledger_inv(spec_burn(s, h, ai, amount).unwrap()),
{
    let post = spec_burn(s, h, ai, amount).unwrap();
    let p = h[ai] as int;
    let q = h[ai + 1] as int;
    lemma_burn_effect(s, h, ai, amount);
    assert forall|m: int|
        0 <= m < s.len() && (#[trigger] s[m]).is_mint() implies post[m].mint().supply
        - s[m].mint().supply == holdings_gain(s, post, p, q, s[m].mint().mint_index) by {
        if m != p {
            assert(s[p].is_mint());
            assert(s[m].mint().mint_index != s[p].mint().mint_index);
        }
    }
    assert forall|c: int|
        0 <= c < s.len() && (#[trigger] s[c]).key == CONFIG_ACCOUNT@ implies empty_if_unissued(
        post[p],
        counter_at(s[c]),
    ) && empty_if_unissued(post[q], counter_at(s[c])) by {
        assert(s[p].is_mint());
        assert(s[p].mint().mint_index < counter_at(s[c]));
    }
    lemma_rebalance_keeps_ledger(s, post, p, q);
}

/// `Transfer` keeps a consistent ledger consistent.
pub proof fn lemma_transfer_keeps_ledger(s: Seq<AccountView>, h: Seq<usize>, ai: int, amount: u64)
    requires
        0 <= ai,
        ledger_inv(s),
        spec_transfer(s, h, ai, amount) is Ok,
    ensures
        ledger_inv(spec_transfer(s, h, ai, amount).unwrap()),
{
    let post = spec_transfer(s, h, ai, amount).unwrap();
    let p = h[ai] as int;
    let q = h[ai + 1] as int;
    lemma_transfer_conserves(s, h, ai, amount);
    if p != q {
        assert forall|m: int|
            0 <= m < s.len() && (#[trigger] s[m]).is_mint() implies post[m].mint().supply
            - s[m].mint().supply == holdings_gain(s, post, p, q, s[m].mint().mint_index) by {}
        assert forall|c: int|
            0 <= c < s.len() && (#[trigger] s[c]).key == CONFIG_ACCOUNT@ implies empty_if_unissued(
            post[p],
            counter_at(s[c]),
        ) && empty_if_unissued(post[q], counter_at(s[c])) by {
            assert(s[p].is_token() && s[q].is_token());
        }
        lemma_rebalance_keeps_ledger(s, post, p, q);
    }
}

/// `CloseAccount` keeps a consistent ledger consistent.
pub proof fn lemma_close_account_keeps_ledger(s: Seq<AccountView>, h: Seq<usize>, ai: int)
    requires
        0 <= ai,
        ledger_inv(s),
        spec_close_account(s, h, ai) is Ok,
    ensures
        ledger_inv(spec_close_account(s, h, ai).unwrap()),
{
    let post = spec_close_account(s, h, ai).unwrap();
    let p = h[ai] as int;
    let q = h[ai + 1] as int;
    lemma_close_account_conserves(s, h, ai);
    assert forall|m: int|
        0 <= m < s.len() && (#[trigger] s[m]).is_mint() implies post[m].mint().supply
        - s[m].mint().supply == holdings_gain(s, post, p, q, s[m].mint().mint_index) by {}
    assert forall|c: int|
        0 <= c < s.len() && (#[trigger] s[c]).key == CONFIG_ACCOUNT@ implies empty_if_unissued(
        post[p],
        counter_at(s[c]),
    ) && empty_if_unissued(post[q], counter_at(s[c])) by {
        assert(s[p].is_token() && s[q].is_token());
    }
    lemma_rebalance_keeps_ledger(s, post, p, q);
}

/// `InitializeAccount` turns an unclaimed account into an empty token
/// account and changes nothing else.
pub proof fn lemma_initialize_account_effect(
    s: Seq<AccountView>,
    h: Seq<usize>,
    ai: int,
    mint: u64,
    derived: Option<(Seq<u8>, u8)>,
)
    requires
        0 <= ai,
        wf_accounts(s),
        spec_initialize_account_at(s, h, ai, mint, derived) is Ok,
    ensures
        ({
            let post = spec_initialize_account_at(s, h, ai, mint, derived).unwrap();
            let p = h[ai] as int;
            &&& 0 <= p < s.len()
            &&& post.len() == s.len()
            &&& forall|i: int| 0 <= i < s.len() && i != p ==> post[i] == s[i]
            &&& !s[p].is_config() && !s[p].is_mint() && !s[p].is_token()
            &&& post[p].key == s[p].key
            &&& post[p].is_token() && !post[p].is_config() && !post[p].is_mint()
            &&& post[p].token() == TokenAccountView {
                owner: s[h[ai + 1] as int].key,
                mint,
                balance: 0,
            }
        }),
{
    let p = h[ai] as int;
    let o = h[ai + 1] as int;
    let fresh = s[p].allocated(TokenAccount::spec_space()).with_tag(AccountDiscriminator::Token);
    let token = TokenAccountView { owner: s[o].key, mint, balance: 0 };
    assert(s[o].key.len() == 32);
    TokenAccount::lemma_store(fresh.data, token);
}

/// `InitializeMint` turns an unclaimed account into a mint with the index
/// that the configuration held and no supply, moves the counter on by one,
/// and changes nothing else.
pub proof fn lemma_initialize_mint_effect(
    s: Seq<AccountView>,
    h: Seq<usize>,
    ai: int,
    authority: Seq<u8>,
    decimals: u64,
)
    requires
        0 <= ai,
        authority.len() == 32,
        spec_initialize_mint(s, h, ai, authority, decimals) is Ok,
    ensures
        ({
            let post = spec_initialize_mint(s, h, ai, authority, decimals).unwrap();
            let at = h[h.len() - 3] as int;
            let p = h[ai] as int;
            &&& 0 <= p < s.len() && 0 <= at < s.len()
            &&& post.len() == s.len()
            &&& p != at
            &&& forall|i: int| 0 <= i < s.len() && i != p && i != at ==> post[i] == s[i]
            &&& !s[p].is_config() && !s[p].is_mint() && !s[p].is_token()
            &&& post[p].key == s[p].key
            &&& post[p].is_mint() && !post[p].is_config() && !post[p].is_token()
            &&& post[p].mint().mint_index == s[at].config().mint_index
            &&& post[p].mint().supply == 0
            &&& post[p].mint().authority == authority
            &&& post[p].mint().decimals == decimals
            &&& s[at].is_config()
            &&& post[at].key == s[at].key
            &&& post[at].is_config() && !post[at].is_mint() && !post[at].is_token()
            &&& post[at].config().mint_index == s[at].config().mint_index + 1
        }),
{
    let at = h[h.len() - 3] as int;
    let p = h[ai] as int;
    let config = s[at];
    let fresh = s[p].allocated(Mint::spec_space()).with_tag(AccountDiscriminator::Mint);
    let mint = MintView {
        mint_index: config.config().mint_index,
        authority,
        supply: 0,
        decimals: decimals as u8,
        padding: spec_zeros(7),
    };
    Mint::lemma_store(fresh.data, mint);
    lemma_with_config(
        config,
        ProgramConfig { mint_index: (config.config().mint_index + 1) as u64 },
    );
}

/// `InitializeConfig` turns the blank configuration storage into the
/// configuration with the counter at zero, and changes nothing else.
pub proof fn lemma_initialize_config_effect(s: Seq<AccountView>, h: Seq<usize>, ai: int)
    requires
        0 <= ai,
        spec_initialize_config(s, h, ai) is Ok,
    ensures
        ({
            let post = spec_initialize_config(s, h, ai).unwrap();
            let at = h[h.len() - 3] as int;
            &&& 0 <= at < s.len()
            &&& post.len() == s.len()
            &&& forall|i: int| 0 <= i < s.len() && i != at ==> post[i] == s[i]
            &&& !s[at].is_config() && !s[at].is_mint() && !s[at].is_token()
            &&& post[at].key == s[at].key
            &&& post[at].is_config() && !post[at].is_mint() && !post[at].is_token()
            &&& post[at].config().mint_index == 0
        }),
{
    let at = h[h.len() - 3] as int;
    let tagged = s[at].with_tag(AccountDiscriminator::Config);
    ProgramConfig::lemma_store(tagged.data, ProgramConfig { mint_index: 0 });
}

/// `InitializeAccount` keeps a consistent ledger consistent.
pub proof fn lemma_initialize_account_keeps_ledger(
    s: Seq<AccountView>,
    h: Seq<usize>,
    ai: int,
    mint: u64,
    derived: Option<(Seq<u8>, u8)>,
)
    requires
        0 <= ai,
        ledger_inv(s),
        spec_initialize_account_at(s, h, ai, mint, derived) is Ok,
    ensures
        ledger_inv(spec_initialize_account_at(s, h, ai, mint, derived).unwrap()),
{
    let post = spec_initialize_account_at(s, h, ai, mint, derived).unwrap();
    let p = h[ai] as int;
    lemma_initialize_account_effect(s, h, ai, mint, derived);
    assert forall|i: int| 0 <= i < post.len() implies (#[trigger] post[i]).key == s[i].key
        && counter_at(post[i]) == counter_at(s[i]) by {}
    assert forall|i: int, j: int|
        #![trigger post[i], post[j]]
        0 <= i < post.len() && 0 <= j < post.len() && post[i].key == CONFIG_ACCOUNT@
            && post[j].key == CONFIG_ACCOUNT@ implies i == j by {
        assert(s[i].key == CONFIG_ACCOUNT@ && s[j].key == CONFIG_ACCOUNT@);
    }
    assert forall|c: int, m: int|
        #![trigger post[c], post[m]]
        0 <= c < post.len() && 0 <= m < post.len() && post[c].key == CONFIG_ACCOUNT@
            && post[m].is_mint() implies post[m].mint().mint_index < counter_at(post[c]) by {
        assert(s[c].key == CONFIG_ACCOUNT@ && s[m].is_mint());
    }
    assert forall|c: int, t: int|
        #![trigger post[c], post[t]]
        0 <= c < post.len() && 0 <= t < post.len() && post[c].key == CONFIG_ACCOUNT@
            && post[t].is_token() && post[t].token().mint >= counter_at(
            post[c],
        ) implies post[t].token().balance == 0 by {
        assert(s[c].key == CONFIG_ACCOUNT@);
        if t != p {
            assert(s[t].is_token());
        }
    }
    assert forall|m: int, n: int|
        #![trigger post[m], post[n]]
        0 <= m < post.len() && 0 <= n < post.len() && post[m].is_mint() && post[n].is_mint()
            && post[m].mint().mint_index == post[n].mint().mint_index implies m == n by {
        assert(s[m].is_mint() && s[n].is_mint());
    }
    assert forall|m: int|
        0 <= m < post.len() && (#[trigger] post[m]).is_mint() implies supply_backed_at(post, m) by {
        assert(s[m].is_mint());
        lemma_total_update(s, p, post[p], s[m].mint().mint_index);
        assert(post =~= s.update(p, post[p]));
        assert(supply_backed_at(s, m));
    }
    assert forall|c: int, index: nat|
        #![trigger post[c], has_mint(post, index)]
        0 <= c < post.len() && post[c].key == CONFIG_ACCOUNT@ && index < counter_at(
            post[c],
        ) implies has_mint(post, index) by {
        assert(s[c].key == CONFIG_ACCOUNT@);
        assert(has_mint(s, index));
        let m = choose|m: int|
            0 <= m < s.len() && (#[trigger] s[m]).is_mint() && s[m].mint().mint_index == index;
        assert(post[m].is_mint() && post[m].mint().mint_index == index);
    }
}

/// `InitializeMint` keeps a consistent ledger consistent.
pub proof fn lemma_initialize_mint_keeps_ledger(
    s: Seq<AccountView>,
    h: Seq<usize>,
    ai: int,
    authority: Seq<u8>,
    decimals: u64,
)
    requires
        0 <= ai,
        authority.len() == 32,
        ledger_inv(s),
        spec_initialize_mint(s, h, ai, authority, decimals) is Ok,
    ensures
        ledger_inv(spec_initialize_mint(s, h, ai, authority, decimals).unwrap()),
{
    let post = spec_initialize_mint(s, h, ai, authority, decimals).unwrap();
    let at = h[h.len() - 3] as int;
    let p = h[ai] as int;
    let index = s[at].config().mint_index;
    lemma_initialize_mint_effect(s, h, ai, authority, decimals);
    assert(s[at].key == CONFIG_ACCOUNT@);
    assert forall|i: int| 0 <= i < post.len() implies (#[trigger] post[i]).key == s[i].key by {}
    assert forall|i: int, j: int|
        #![trigger post[i], post[j]]
        0 <= i < post.len() && 0 <= j < post.len() && post[i].key == CONFIG_ACCOUNT@
            && post[j].key == CONFIG_ACCOUNT@ implies i == j by {
        assert(s[i].key == CONFIG_ACCOUNT@ && s[j].key == CONFIG_ACCOUNT@);
    }
    assert forall|c: int|
        0 <= c < post.len() && (#[trigger] post[c]).is_config() implies post[c].key
        == CONFIG_ACCOUNT@ by {
        if c != at {
            assert(s[c].is_config());
        }
    }
    assert forall|c: int, m: int|
        #![trigger post[c], post[m]]
        0 <= c < post.len() && 0 <= m < post.len() && post[c].key == CONFIG_ACCOUNT@
            && post[m].is_mint() implies post[m].mint().mint_index < counter_at(post[c]) by {
        assert(s[c].key == CONFIG_ACCOUNT@ && s[at].key == CONFIG_ACCOUNT@);
        assert(c == at);
        if m != p {
            assert(s[m].is_mint());
            assert(s[m].mint().mint_index < counter_at(s[at]));
        }
    }
    assert forall|c: int, t: int|
        #![trigger post[c], post[t]]
        0 <= c < post.len() && 0 <= t < post.len() && post[c].key == CONFIG_ACCOUNT@
            && post[t].is_token() && post[t].token().mint >= counter_at(
            post[c],
        ) implies post[t].token().balance == 0 by {
        assert(s[c].key == CONFIG_ACCOUNT@ && s[at].key == CONFIG_ACCOUNT@);
        assert(c == at);
        assert(s[t].is_token());
        assert(s[t].token().mint >= counter_at(s[at]));
    }
    assert forall|m: int, n: int|
        #![trigger post[m], post[n]]
        0 <= m < post.len() && 0 <= n < post.len() && post[m].is_mint() && post[n].is_mint()
            && post[m].mint().mint_index == post[n].mint().mint_index implies m == n by {
        if m != p {
            assert(s[m].is_mint());
            assert(s[m].mint().mint_index < counter_at(s[at]));
        }
        if n != p {
            assert(s[n].is_mint());
            assert(s[n].mint().mint_index < counter_at(s[at]));
        }
    }
    assert forall|m: int|
        0 <= m < post.len() && (#[trigger] post[m]).is_mint() implies supply_backed_at(post, m) by {
        let x = post[m].mint().mint_index;
        lemma_total_update2(s, at, post[at], p, post[p], x);
        assert(post =~= s.update(at, post[at]).update(p, post[p]));
        if m == p {
            assert forall|i: int| 0 <= i < s.len() implies balance_in(#[trigger] s[i], x) == 0 by {
                if s[i].is_token() && s[i].token().mint == x {
                    assert(s[i].token().mint >= counter_at(s[at]));
                }
            }
            lemma_total_zero(s, x);
        } else {
            assert(s[m].is_mint());
            assert(supply_backed_at(s, m));
        }
    }
    assert forall|c: int, k: nat|
        #![trigger post[c], has_mint(post, k)]
        0 <= c < post.len() && post[c].key == CONFIG_ACCOUNT@ && k < counter_at(
            post[c],
        ) implies has_mint(post, k) by {
        assert(s[c].key == CONFIG_ACCOUNT@ && s[at].key == CONFIG_ACCOUNT@);
        assert(c == at);
        if k == index {
            assert(post[p].is_mint() && post[p].mint().mint_index == k);
        } else {
            assert(k < counter_at(s[at]));
            assert(has_mint(s, k));
            let m = choose|m: int|
                0 <= m < s.len() && (#[trigger] s[m]).is_mint() && s[m].mint().mint_index == k;
            assert(post[m].is_mint() && post[m].mint().mint_index == k);
        }
    }
}

/// `InitializeConfig` keeps a consistent ledger consistent, provided that it
/// is applied to the account at the configuration's address.
pub proof fn lemma_initialize_config_keeps_ledger(s: Seq<AccountView>, h: Seq<usize>, ai: int)
    requires
        0 <= ai,
        ledger_inv(s),
        spec_config_at_end(s, h),
        spec_initialize_config(s, h, ai) is Ok,
    ensures
        ledger_inv(spec_initialize_config(s, h, ai).unwrap()),
{
    let post = spec_initialize_config(s, h, ai).unwrap();
    let at = h[h.len() - 3] as int;
    lemma_initialize_config_effect(s, h, ai);
    assert(s[at].key == CONFIG_ACCOUNT@);
    assert(counter_at(s[at]) == 0);
    assert forall|i: int| 0 <= i < post.len() implies (#[trigger] post[i]).key == s[i].key by {}
    assert forall|i: int, j: int|
        #![trigger post[i], post[j]]
        0 <= i < post.len() && 0 <= j < post.len() && post[i].key == CONFIG_ACCOUNT@
            && post[j].key == CONFIG_ACCOUNT@ implies i == j by {
        assert(s[i].key == CONFIG_ACCOUNT@ && s[j].key == CONFIG_ACCOUNT@);
    }
    assert forall|c: int|
        0 <= c < post.len() && (#[trigger] post[c]).is_config() implies post[c].key
        == CONFIG_ACCOUNT@ by {
        if c != at {
            assert(s[c].is_config());
        }
    }
    assert forall|m: int| 0 <= m < post.len() implies !(#[trigger] post[m]).is_mint() by {
        if m != at && post[m].is_mint() {
            assert(s[m].is_mint());
            assert(s[m].mint().mint_index < counter_at(s[at]));
        }
    }
    assert forall|c: int, t: int|
        #![trigger post[c], post[t]]
        0 <= c < post.len() && 0 <= t < post.len() && post[c].key == CONFIG_ACCOUNT@
            && post[t].is_token() && post[t].token().mint >= counter_at(
            post[c],
        ) implies post[t].token().balance == 0 by {
        assert(s[t].is_token());
        assert(s[t].token().mint >= counter_at(s[at]));
    }
    assert forall|c: int, index: nat|
        #![trigger post[c], has_mint(post, index)]
        0 <= c < post.len() && post[c].key == CONFIG_ACCOUNT@ && index < counter_at(
            post[c],
        ) implies has_mint(post, index) by {
        assert(s[c].key == CONFIG_ACCOUNT@ && s[at].key == CONFIG_ACCOUNT@);
        assert(c == at);
    }
}

/// No instruction takes back what the ledger has recorded.
pub proof fn lemma_execute_keeps_records(
    s: Seq<AccountView>,
    h: Seq<usize>,
    ai: int,
    instruction: InstructionView,
)
    requires
        0 <= ai,
        wf_accounts(s),
        instruction matches InstructionView::InitializeMint { authority, .. } ==> authority.len()
            == 32,
        spec_execute(s, h, ai, instruction) is Ok,
    ensures
        records_kept(s, spec_execute(s, h, ai, instruction).unwrap().0),
        wf_accounts(spec_execute(s, h, ai, instruction).unwrap().0),
{
    let post = spec_execute(s, h, ai, instruction).unwrap().0;
    match instruction {
        InstructionView::InitializeConfig => lemma_initialize_config_effect(s, h, ai),
        InstructionView::InitializeMint { authority, decimals } => {
            lemma_initialize_mint_effect(s, h, ai, authority, decimals)
        },
        InstructionView::InitializeAccount { mint } => lemma_initialize_account_effect(
            s,
            h,
            ai,
            mint,
            TokenAccount::spec_address(mint, s[h[ai + 1] as int].key),
        ),
        InstructionView::Mint { amount } => lemma_mint_effect(s, h, ai, amount),
        InstructionView::Burn { amount } => lemma_burn_effect(s, h, ai, amount),
        InstructionView::Transfer { amount } => lemma_transfer_conserves(s, h, ai, amount),
        InstructionView::CloseAccount => lemma_close_account_conserves(s, h, ai),
    }
    assert forall|i: int| 0 <= i < s.len() implies (#[trigger] post[i]).key == s[i].key by {}
}

/// Keeping records is transitive.
pub proof fn lemma_records_kept_trans(
    a: Seq<AccountView>,
    b: Seq<AccountView>,
    c: Seq<AccountView>,
)
    requires
        records_kept(a, b),
        records_kept(b, c),
    ensures
        records_kept(a, c),
{
    assert forall|i: int| 0 <= i < a.len() implies {
        &&& (#[trigger] c[i]).key == a[i].key
        &&& counter_at(c[i]) >= counter_at(a[i])
    } by {
        assert(b[i].key == a[i].key);
    }
    assert forall|i: int|
        0 <= i < a.len() && a[i].is_config() implies (#[trigger] c[i]).is_config() by {
        assert(b[i].key == a[i].key);
    }
    assert forall|i: int| 0 <= i < a.len() && a[i].is_mint() implies (#[trigger] c[i]).is_mint()
        && c[i].mint().mint_index == a[i].mint().mint_index && c[i].mint().authority
        == a[i].mint().authority && c[i].mint().decimals == a[i].mint().decimals by {
        assert(b[i].key == a[i].key);
    }
    assert forall|i: int| 0 <= i < a.len() && a[i].is_token() implies (#[trigger] c[i]).is_token()
        && c[i].token().mint == a[i].token().mint && c[i].token().owner
        == a[i].token().owner by {
        assert(b[i].key == a[i].key);
    }
}

/// A batch takes back nothing that the ledger has recorded, whether it runs
/// to its end or stops at an error: the mint counter never falls, and mints
/// and token accounts keep their identity.
pub proof fn lemma_run_keeps_records(s: Seq<AccountView>, h: Seq<usize>, ai: int, data: Seq<u8>)
    requires
        0 <= ai,
        wf_accounts(s),
    ensures
        records_kept(s, spec_run(s, h, ai, data).1),
    decreases data.len(),
{
    match spec_decode(data) {
        Some(Ok((instruction, rest))) => {
            if spec_execute(s, h, ai, instruction) is Ok {
                let (post, next) = spec_execute(s, h, ai, instruction).unwrap();
                lemma_execute_keeps_records(s, h, ai, instruction);
                lemma_execute_frame(s, h, ai, instruction);
                lemma_run_keeps_records(post, h, next, rest);
                lemma_records_kept_trans(s, post, spec_run(post, h, next, rest).1);
            }
        },
        _ => {},
    }
}

/// Every instruction that succeeds keeps a consistent ledger consistent.
pub proof fn lemma_execute_keeps_ledger(
    s: Seq<AccountView>,
    h: Seq<usize>,
    ai: int,
    instruction: InstructionView,
)
    requires
        0 <= ai,
        ledger_inv(s),
        instruction matches InstructionView::InitializeMint { authority, .. } ==> authority.len()
            == 32,
        spec_execute(s, h, ai, instruction) is Ok,
    ensures
        ledger_inv(spec_execute(s, h, ai, instruction).unwrap().0),
{
    match instruction {
        InstructionView::InitializeConfig => lemma_initialize_config_keeps_ledger(s, h, ai),
        InstructionView::InitializeMint { authority, decimals } => {
            lemma_initialize_mint_keeps_ledger(s, h, ai, authority, decimals)
        },
        InstructionView::InitializeAccount { mint } => lemma_initialize_account_keeps_ledger(
            s,
            h,
            ai,
            mint,
            TokenAccount::spec_address(mint, s[h[ai + 1] as int].key),
        ),
        InstructionView::Mint { amount } => lemma_mint_keeps_ledger(s, h, ai, amount),
        InstructionView::Burn { amount } => lemma_burn_keeps_ledger(s, h, ai, amount),
        InstructionView::Transfer { amount } => lemma_transfer_keeps_ledger(s, h, ai, amount),
        InstructionView::CloseAccount => lemma_close_account_keeps_ledger(s, h, ai),
    }
}

/// A batch keeps a consistent ledger consistent after every instruction,
/// whether the batch runs to its end or stops at an error.
pub proof fn lemma_run_keeps_ledger(s: Seq<AccountView>, h: Seq<usize>, ai: int, data: Seq<u8>)
    requires
        0 <= ai,
        ledger_inv(s),
    ensures
        ledger_inv(spec_run(s, h, ai, data).1),
    decreases data.len(),
{
    match spec_decode(data) {
        Some(Ok((instruction, rest))) => {
            if spec_execute(s, h, ai, instruction) is Ok {
                let (post, next) = spec_execute(s, h, ai, instruction).unwrap();
                lemma_execute_keeps_ledger(s, h, ai, instruction);
                lemma_execute_frame(s, h, ai, instruction);
                lemma_run_keeps_ledger(post, h, next, rest);
            }
        },
        _ => {},
    }
}

/// A call keeps a consistent ledger consistent, whatever it holds.
pub proof fn lemma_process_keeps_ledger(
    program_id: Seq<u8>,
    s: Seq<AccountView>,
    h: Seq<usize>,
    data: Seq<u8>,
)
    requires
        ledger_inv(s),
    ensures
        ledger_inv(spec_process(program_id, s, h, data).1),
{
    lemma_run_keeps_ledger(s, h, 0, data);
}

/// No token account of `s` holds more than the supply of its mint.
pub open spec fn balances_within_supply(s: Seq<AccountView>) -> bool {
    forall|m: int, t: int|
        #![trigger s[m], s[t]]
        0 <= m < s.len() && 0 <= t < s.len() && s[m].is_mint() && s[t].is_token()
            && s[t].token().mint == s[m].mint().mint_index ==> s[t].token().balance
            <= s[m].mint().supply
}

/// In a consistent ledger every balance is within the supply of its mint.
/// That every balance is within its supply does not by itself make a ledger
/// consistent, and is not kept by itself: where two accounts each hold the
/// whole supply, a burn from one leaves the other above the supply.
pub proof fn lemma_ledger_within_supply(s: Seq<AccountView>)
    requires
        ledger_inv(s),
    ensures
        balances_within_supply(s),
{
    assert forall|m: int, t: int|
        #![trigger s[m], s[t]]
        0 <= m < s.len() && 0 <= t < s.len() && s[m].is_mint() && s[t].is_token()
            && s[t].token().mint == s[m].mint().mint_index implies s[t].token().balance
        <= s[m].mint().supply by {
        lemma_balance_within_supply(s, m, t);
    }
}

/// Whatever a call holds and however it ends, it leaves every balance of a
/// consistent ledger within the supply of its mint.
pub proof fn lemma_process_keeps_within_supply(
    program_id: Seq<u8>,
    s: Seq<AccountView>,
    h: Seq<usize>,
    data: Seq<u8>,
)
    requires
        ledger_inv(s),
    ensures
        balances_within_supply(spec_process(program_id, s, h, data).1),
{
    lemma_process_keeps_ledger(program_id, s, h, data);
    lemma_ledger_within_supply(spec_process(program_id, s, h, data).1);
}

/// In a consistent ledger no token account holds more than the supply of
/// its mint.
pub proof fn lemma_balance_within_supply(s: Seq<AccountView>, m: int, t: int)
    requires
        ledger_inv(s),
        0 <= m < s.len(),
        0 <= t < s.len(),
        s[m].is_mint(),
        s[t].is_token(),
        s[t].token().mint == s[m].mint().mint_index,
    ensures
        s[t].token().balance <= s[m].mint().supply,
{
    lemma_total_bounds(s, t, s[m].mint().mint_index);
    assert(supply_backed_at(s, m));
}

/// A stream that ends inside an argument structure, or starts with a byte
/// that is no opcode, is refused with `InvalidInstructionData`, and the
/// instruction it was cut off in touches no account.
pub proof fn lemma_truncated_stream(s: Seq<AccountView>, h: Seq<usize>, ai: int, data: Seq<u8>)
    requires
        spec_decode(data) matches Some(Err(_)),
    ensures
        spec_decode(data) == Some(
            Err::<(InstructionView, Seq<u8>), NanoTokenError>(
                NanoTokenError::InvalidInstructionData,
            ),
        ),
        spec_run(s, h, ai, data) == (
            Err::<(), NanoTokenError>(NanoTokenError::InvalidInstructionData),
            s,
        ),
{
}

} // verus!
