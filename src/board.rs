use vstd::prelude::*;

verus! {

/// One of the two players; `X` moves first.
#[derive(Debug, Clone, Copy, PartialEq, Eq, Structural)]
pub enum Player {
    X,
    O,
}

/// The text shown for a player's mark.
pub open spec fn symbol_of(p: Player) -> Seq<char> {
    match p {
        Player::X => seq!['X'],
        Player::O => seq!['O'],
    }
}

impl Player {
    pub open spec fn other(self) -> Player {
        match self {
            Player::X => Player::O,
            Player::O => Player::X,
        }
    }

    pub fn other_player(&self) -> (r: Player)
        ensures
            r == self.other(),
    {
        match self {
            Player::X => Player::O,
            Player::O => Player::X,
        }
    }

    /// The player's mark as text: "X" or "O".
    pub fn symbol(&self) -> (r: String)
        ensures
            r@ == symbol_of(*self),
    {
        proof {
            reveal_strlit("X");
            reveal_strlit("O");
        }
        match self {
            Player::X => String::from_str("X"),
            Player::O => String::from_str("O"),
        }
    }
}

/// A cell coordinate; `x` is the column and `y` the row.
#[derive(Debug, Clone, Copy, PartialEq, Eq, Structural)]
pub struct Position {
    pub x: u8,
    pub y: u8,
}

impl Position {
    pub open spec fn in_range(self) -> bool {
        self.x < 3 && self.y < 3
    }

    /// Row-major cell index.
    pub open spec fn index(self) -> int {
        self.y as int * 3 + self.x as int
    }

    /// The position of row-major cell index `i`.
    pub open spec fn at(i: int) -> Position {
        Position { x: (i % 3) as u8, y: (i / 3) as u8 }
    }

    pub fn new(x: u8, y: u8) -> (r: Position)
        ensures
            r.x == x,
            r.y == y,
    {
        Position { x, y }
    }

    pub fn is_valid(&self) -> (r: bool)
        ensures
            r == self.in_range(),
    {
        self.x < 3 && self.y < 3
    }
}

/// Whether bit `i` of `b` is set.
pub open spec fn has_bit(b: u16, i: u16) -> bool {
    b & (1u16 << i) != 0
}

proof fn lemma_update_bits(x: u16, o: u16, k: u16, i: u16)
    by (bit_vector)
    requires
        k < 9,
        i < 9,
    ensures
        (x | (1u16 << k)) & (1u16 << i) != 0 <==> (i == k || x & (1u16 << i) != 0),
        (x & !(1u16 << k)) & (1u16 << i) != 0 <==> (i != k && x & (1u16 << i) != 0),
        x & o == 0 ==> (x | (1u16 << k)) & (o & !(1u16 << k)) == 0,
        x & o == 0 ==> (x & !(1u16 << k)) & (o | (1u16 << k)) == 0,
        x < 512 ==> (x | (1u16 << k)) < 512,
        x & !(1u16 << k) <= x,
{
}

proof fn lemma_disjoint_bits(x: u16, o: u16, i: u16)
    by (bit_vector)
    requires
        x & o == 0,
    ensures
        !(x & (1u16 << i) != 0 && o & (1u16 << i) != 0),
{
}

/// Whether row-major cell `i` lies on winning line `l`: lines 0 to 2 are the
/// columns, 3 to 5 the rows, 6 the main diagonal and 7 the anti-diagonal.
pub open spec fn on_line(l: int, i: int) -> bool {
    let x = i % 3;
    let y = i / 3;
    if l < 3 {
        x == l
    } else if l < 6 {
        y == l - 3
    } else if l == 6 {
        x == y
    } else {
        x + y == 2
    }
}

/// The cells of `p` on `v` are exactly those of line `l`.
pub open spec fn claims_line(v: Seq<Option<Player>>, p: Player, l: int) -> bool {
    forall|i: int| 0 <= i < 9 ==> (#[trigger] v[i] == Some(p) <==> on_line(l, i))
}

pub open spec fn has_won(v: Seq<Option<Player>>, p: Player) -> bool {
    exists|l: int| 0 <= l < 8 && #[trigger] claims_line(v, p, l)
}

/// The winner of a board on which at most one player has won.
pub open spec fn winner_of(v: Seq<Option<Player>>) -> Option<Player> {
    if has_won(v, Player::X) {
        Some(Player::X)
    } else if has_won(v, Player::O) {
        Some(Player::O)
    } else {
        None
    }
}

/// The set bits of `bits` are exactly the cells of line `l`.
spec fn bits_claim(bits: u16, l: int) -> bool {
    forall|i: int| 0 <= i < 9 ==> (#[trigger] has_bit(bits, i as u16) <==> on_line(l, i))
}

proof fn lemma_mask_bits(i: u16)
    by (bit_vector)
    requires
        i < 9,
    ensures
        (73u16 & (1u16 << i) != 0) == (i == 0 || i == 3 || i == 6),
        (146u16 & (1u16 << i) != 0) == (i == 1 || i == 4 || i == 7),
        (292u16 & (1u16 << i) != 0) == (i == 2 || i == 5 || i == 8),
        (7u16 & (1u16 << i) != 0) == (i < 3),
        (56u16 & (1u16 << i) != 0) == (3 <= i && i < 6),
        (448u16 & (1u16 << i) != 0) == (6 <= i),
        (273u16 & (1u16 << i) != 0) == (i == 0 || i == 4 || i == 8),
        (84u16 & (1u16 << i) != 0) == (i == 2 || i == 4 || i == 6),
{
}

proof fn lemma_nine_bits_equal(a: u16, b: u16)
    by (bit_vector)
    requires
        a < 512,
        b < 512,
        (a & (1u16 << 0u16) != 0) == (b & (1u16 << 0u16) != 0),
        (a & (1u16 << 1u16) != 0) == (b & (1u16 << 1u16) != 0),
        (a & (1u16 << 2u16) != 0) == (b & (1u16 << 2u16) != 0),
        (a & (1u16 << 3u16) != 0) == (b & (1u16 << 3u16) != 0),
        (a & (1u16 << 4u16) != 0) == (b & (1u16 << 4u16) != 0),
        (a & (1u16 << 5u16) != 0) == (b & (1u16 << 5u16) != 0),
        (a & (1u16 << 6u16) != 0) == (b & (1u16 << 6u16) != 0),
        (a & (1u16 << 7u16) != 0) == (b & (1u16 << 7u16) != 0),
        (a & (1u16 << 8u16) != 0) == (b & (1u16 << 8u16) != 0),
    ensures
        a == b,
{
}

/// Two nine-bit sets that agree on every cell are equal.
proof fn lemma_bits_agree(a: u16, b: u16)
    requires
        a < 512,
        b < 512,
        forall|i: int| 0 <= i < 9 ==> #[trigger] has_bit(a, i as u16) == has_bit(b, i as u16),
    ensures
        a == b,
{
    assert(has_bit(a, 0int as u16) == has_bit(b, 0int as u16));
    assert(has_bit(a, 1int as u16) == has_bit(b, 1int as u16));
    assert(has_bit(a, 2int as u16) == has_bit(b, 2int as u16));
    assert(has_bit(a, 3int as u16) == has_bit(b, 3int as u16));
    assert(has_bit(a, 4int as u16) == has_bit(b, 4int as u16));
    assert(has_bit(a, 5int as u16) == has_bit(b, 5int as u16));
    assert(has_bit(a, 6int as u16) == has_bit(b, 6int as u16));
    assert(has_bit(a, 7int as u16) == has_bit(b, 7int as u16));
    assert(has_bit(a, 8int as u16) == has_bit(b, 8int as u16));
    lemma_nine_bits_equal(a, b);
}

proof fn lemma_cell_coords(i: int)
    requires
        0 <= i < 9,
    ensures
        i < 3 ==> i / 3 == 0 && i % 3 == i,
        3 <= i < 6 ==> i / 3 == 1 && i % 3 == i - 3,
        6 <= i ==> i / 3 == 2 && i % 3 == i - 6,
{
}

/// The bit mask of winning line `l`.
fn line_mask(l: usize) -> (r: u16)
    requires
        l < 8,
    ensures
        r < 512,
        bits_claim(r, l as int),
{
    let r: u16 = if l == 0 {
        73
    } else if l == 1 {
        146
    } else if l == 2 {
        292
    } else if l == 3 {
        7
    } else if l == 4 {
        56
    } else if l == 5 {
        448
    } else if l == 6 {
        273
    } else {
        84
    };
    assert forall|i: int| 0 <= i < 9 implies (#[trigger] has_bit(r, i as u16) <==> on_line(
        l as int,
        i,
    )) by {
        lemma_mask_bits(i as u16);
        lemma_cell_coords(i);
    }
    r
}

/// How many of the first `n` cells of `v` belong to `p`.
pub open spec fn count_of(v: Seq<Option<Player>>, p: Player, n: int) -> nat
    decreases n,
{
    if n <= 0 {
        0
    } else {
        count_of(v, p, n - 1) + if v[n - 1] == Some(p) {
            1nat
        } else {
            0nat
        }
    }
}

pub open spec fn is_full_board(v: Seq<Option<Player>>) -> bool {
    forall|i: int| 0 <= i < 9 ==> (#[trigger] v[i]) is Some
}

/// The positions of the empty cells among the first `n` of `v`, in row-major order.
pub open spec fn empty_cells(v: Seq<Option<Player>>, n: int) -> Seq<Position>
    decreases n,
{
    if n <= 0 {
        Seq::empty()
    } else if v[n - 1] is None {
        empty_cells(v, n - 1).push(Position::at(n - 1))
    } else {
        empty_cells(v, n - 1)
    }
}

/// Every one of the first `n` cells is either empty or held by one of the players.
pub proof fn lemma_cells_add_up(v: Seq<Option<Player>>, n: int)
    requires
        0 <= n <= v.len(),
    ensures
        count_of(v, Player::X, n) + count_of(v, Player::O, n) + empty_cells(v, n).len() == n,
        empty_cells(v, n).len() == 0 <==> forall|i: int| 0 <= i < n ==> (#[trigger] v[i]) is Some,
    decreases n,
{
    if n > 0 {
        lemma_cells_add_up(v, n - 1);
        match v[n - 1] {
            Some(Player::X) => {},
            Some(Player::O) => {},
            None => {},
        }
        if empty_cells(v, n).len() == 0 {
            assert forall|i: int| 0 <= i < n implies (#[trigger] v[i]) is Some by {
                if i < n - 1 {
                    assert(empty_cells(v, n - 1).len() == 0);
                }
            }
        }
    }
}

/// The empty board.
pub open spec fn empty_board() -> Seq<Option<Player>> {
    Seq::new(9, |i: int| None::<Player>)
}

/// Reading a cell right after setting it gives the player just set, and setting
/// it again for another player replaces the first claim.
pub proof fn lemma_set_then_get(board: Board, position: Position, a: Player, b: Player)
    requires
        position.in_range(),
    ensures
        board@.update(position.index(), Some(a))[position.index()] == Some(a),
        board@.update(position.index(), Some(a)).update(position.index(), Some(b))[position.index()]
            == Some(b),
{
}

/// The number of valid moves is nine less the marks of both players: all nine on
/// the empty board, none on a full one.
pub proof fn lemma_valid_moves_count(v: Seq<Option<Player>>)
    requires
        v.len() == 9,
    ensures
        empty_cells(v, 9).len() == 9 - count_of(v, Player::X, 9) - count_of(v, Player::O, 9),
        is_full_board(v) <==> empty_cells(v, 9).len() == 0,
{
    lemma_cells_add_up(v, 9);
}

/// On the empty board every position, in row-major order, is a valid move.
pub proof fn lemma_valid_moves_empty_board()
    ensures
        empty_cells(empty_board(), 9) == Seq::new(9, |i: int| Position::at(i)),
{
    lemma_empty_prefix(9);
}

proof fn lemma_empty_prefix(n: int)
    requires
        0 <= n <= 9,
    ensures
        empty_cells(empty_board(), n) == Seq::new(n as nat, |i: int| Position::at(i)),
    decreases n,
{
    if n > 0 {
        lemma_empty_prefix(n - 1);
        assert(empty_cells(empty_board(), n) =~= Seq::new(n as nat, |i: int| Position::at(i)));
    }
}

/// A player whose cells are exactly one line holds three cells.
proof fn lemma_line_count(v: Seq<Option<Player>>, p: Player, l: int)
    requires
        v.len() == 9,
        0 <= l < 8,
        claims_line(v, p, l),
    ensures
        count_of(v, p, 9) == 3,
{
    reveal_with_fuel(count_of, 10);
    assert(v[0] == Some(p) <==> on_line(l, 0));
    assert(v[1] == Some(p) <==> on_line(l, 1));
    assert(v[2] == Some(p) <==> on_line(l, 2));
    assert(v[3] == Some(p) <==> on_line(l, 3));
    assert(v[4] == Some(p) <==> on_line(l, 4));
    assert(v[5] == Some(p) <==> on_line(l, 5));
    assert(v[6] == Some(p) <==> on_line(l, 6));
    assert(v[7] == Some(p) <==> on_line(l, 7));
    assert(v[8] == Some(p) <==> on_line(l, 8));
}

/// Nobody has won while each player holds fewer than three cells.
pub proof fn lemma_few_marks_no_winner(v: Seq<Option<Player>>)
    requires
        v.len() == 9,
        count_of(v, Player::X, 9) < 3,
        count_of(v, Player::O, 9) < 3,
    ensures
        winner_of(v) is None,
{
    assert forall|p: Player, l: int| 0 <= l < 8 implies !#[trigger] claims_line(v, p, l) by {
        if claims_line(v, p, l) {
            lemma_line_count(v, p, l);
        }
    }
}

/// Whether the set bits of `bits` are exactly one winning line.
fn claims_any_line(bits: u16) -> (r: bool)
    requires
        bits < 512,
    ensures
        r == exists|l: int| 0 <= l < 8 && #[trigger] bits_claim(bits, l),
{
    let mut l: usize = 0;
    while l < 8
        invariant
            l <= 8,
            bits < 512,
            forall|k: int| 0 <= k < l ==> !#[trigger] bits_claim(bits, k),
        decreases 8 - l,
    {
        let mask = line_mask(l);
        if bits == mask {
            assert(bits_claim(bits, l as int));
            return true;
        }
        proof {
            if bits_claim(bits, l as int) {
                assert forall|i: int| 0 <= i < 9 implies #[trigger] has_bit(bits, i as u16) == has_bit(
                    mask,
                    i as u16,
                ) by {
                    assert(has_bit(bits, i as u16) == on_line(l as int, i));
                }
                lemma_bits_agree(bits, mask);
            }
        }
        l = l + 1;
    }
    false
}

/// The 3x3 grid: one bit set per player over the row-major cell index.
#[derive(Debug, Clone, Copy)]
pub struct Board {
    x_bits: u16,
    o_bits: u16,
}

impl View for Board {
    type V = Seq<Option<Player>>;

    open spec fn view(&self) -> Seq<Option<Player>> {
        Seq::new(9, |i: int| self.cell(i))
    }
}

impl Default for Board {
    fn default() -> (r: Board)
        ensures
            r@ == Seq::new(9, |i: int| None::<Player>),
    {
        Board::new()
    }
}

impl Board {
    /// No cell is claimed by both players, and only the nine cell bits are used.
    #[verifier::type_invariant]
    spec fn inv(self) -> bool {
        self.x_bits & self.o_bits == 0 && self.x_bits < 512 && self.o_bits < 512
    }

    pub closed spec fn bits_of(self, p: Player) -> u16 {
        match p {
            Player::X => self.x_bits,
            Player::O => self.o_bits,
        }
    }

    pub closed spec fn cell(self, i: int) -> Option<Player> {
        if has_bit(self.o_bits, i as u16) {
            Some(Player::O)
        } else if has_bit(self.x_bits, i as u16) {
            Some(Player::X)
        } else {
            None
        }
    }

    /// A cell belongs to `p` exactly when its bit is set in `p`'s set.
    proof fn lemma_owner_bits(self, p: Player, i: int)
        requires
            self.inv(),
            0 <= i < 9,
        ensures
            (self@[i] == Some(p)) == has_bit(self.bits_of(p), i as u16),
    {
        lemma_disjoint_bits(self.x_bits, self.o_bits, i as u16);
    }

    pub fn new() -> (r: Board)
        ensures
            r@ == Seq::new(9, |i: int| None::<Player>),
    {
        assert(0u16 & 0u16 == 0) by (bit_vector);
        let r = Board { x_bits: 0, o_bits: 0 };
        assert forall|i: int| 0 <= i < 9 implies r@[i] == None::<Player> by {
            assert(0u16 & (1u16 << (i as u16)) == 0) by (bit_vector);
        }
        assert(r@ =~= Seq::new(9, |i: int| None::<Player>));
        r
    }

    /// The two bit sets, `X`'s first; bit `i` stands for row-major cell `i`.
    pub fn bitboards(&self) -> (r: [u16; 2])
        ensures
            r@.len() == 2,
            r@[0] < 512 && r@[1] < 512 && r@[0] & r@[1] == 0,
            forall|i: int|
                0 <= i < 9 ==> (#[trigger] self@[i] == Some(Player::X)) == has_bit(r@[0], i as u16)
                    && (self@[i] == Some(Player::O)) == has_bit(r@[1], i as u16),
    {
        proof {
            use_type_invariant(self);
            assert forall|i: int| 0 <= i < 9 implies (#[trigger] self@[i] == Some(Player::X))
                == has_bit(self.x_bits, i as u16) && (self@[i] == Some(Player::O)) == has_bit(
                self.o_bits,
                i as u16,
            ) by {
                self.lemma_owner_bits(Player::X, i);
                self.lemma_owner_bits(Player::O, i);
            }
        }
        [self.x_bits, self.o_bits]
    }

    /// The board with the given bit sets (`X`'s first), if they use only the nine
    /// cell bits and share none.
    pub fn from_bitboards(bitboards: [u16; 2]) -> (r: Option<Board>)
        ensures
            r is Some <==> (bitboards@[0] < 512 && bitboards@[1] < 512 && bitboards@[0]
                & bitboards@[1] == 0),
            r matches Some(b) ==> forall|i: int|
                0 <= i < 9 ==> (#[trigger] b@[i] == Some(Player::X)) == has_bit(
                    bitboards@[0],
                    i as u16,
                ) && (b@[i] == Some(Player::O)) == has_bit(bitboards@[1], i as u16),
    {
        let x = bitboards[0];
        let o = bitboards[1];
        if x < 512 && o < 512 && x & o == 0 {
            let b = Board { x_bits: x, o_bits: o };
            proof {
                assert forall|i: int| 0 <= i < 9 implies (#[trigger] b@[i] == Some(Player::X))
                    == has_bit(x, i as u16) && (b@[i] == Some(Player::O)) == has_bit(
                    o,
                    i as u16,
                ) by {
                    b.lemma_owner_bits(Player::X, i);
                    b.lemma_owner_bits(Player::O, i);
                }
            }
            Some(b)
        } else {
            None
        }
    }

    pub fn get_cell(&self, position: &Position) -> (r: Option<Player>)
        requires
            position.in_range(),
        ensures
            r == self@[position.index()],
    {
        proof {
            use_type_invariant(self);
        }
        let offset: u16 = (position.y * 3 + position.x) as u16;
        let mask: u16 = 1u16 << offset;
        let is_player_x = self.x_bits & mask != 0;
        let is_player_o = self.o_bits & mask != 0;
        if is_player_o {
            Some(Player::O)
        } else if is_player_x {
            Some(Player::X)
        } else {
            None
        }
    }

    /// Marks `position` as owned by `player`, clearing any claim of the other player.
    pub fn set_cell(&mut self, position: &Position, player: Player)
        requires
            position.in_range(),
        ensures
            final(self)@ == old(self)@.update(position.index(), Some(player)),
    {
        proof {
            use_type_invariant(&*self);
        }
        let offset: u16 = (position.y * 3 + position.x) as u16;
        let mask: u16 = 1u16 << offset;
        let (x, o) = (self.x_bits, self.o_bits);
        proof {
            lemma_update_bits(x, o, offset, 0);
            lemma_update_bits(o, x, offset, 0);
        }
        let next = match player {
            Player::X => Board { x_bits: x | mask, o_bits: o & !mask },
            Player::O => Board { x_bits: x & !mask, o_bits: o | mask },
        };
        proof {
            assert forall|i: int| 0 <= i < 9 implies next@[i] == old(self)@.update(
                offset as int,
                Some(player),
            )[i] by {
                lemma_update_bits(x, o, offset, i as u16);
                lemma_update_bits(o, x, offset, i as u16);
            }
            assert(next@ =~= old(self)@.update(offset as int, Some(player)));
        }
        *self = next;
    }

    /// On this board, the cells of `p` are exactly line `l` when its bits are.
    proof fn lemma_claims_bits(self, p: Player, l: int)
        requires
            self.inv(),
        ensures
            claims_line(self@, p, l) == bits_claim(self.bits_of(p), l),
    {
        let bits = self.bits_of(p);
        if claims_line(self@, p, l) {
            assert forall|i: int| 0 <= i < 9 implies #[trigger] has_bit(bits, i as u16) <==> on_line(
                l,
                i,
            ) by {
                self.lemma_owner_bits(p, i);
            }
        }
        if bits_claim(bits, l) {
            assert forall|i: int| 0 <= i < 9 implies #[trigger] self@[i] == Some(p) <==> on_line(
                l,
                i,
            ) by {
                self.lemma_owner_bits(p, i);
            }
        }
    }

    fn player_won(&self, p: Player) -> (r: bool)
        ensures
            r == has_won(self@, p),
    {
        proof {
            use_type_invariant(self);
            assert forall|l: int| 0 <= l < 8 implies claims_line(self@, p, l) == bits_claim(
                self.bits_of(p),
                l,
            ) by {
                self.lemma_claims_bits(p, l);
            }
        }
        let bits = match p {
            Player::X => self.x_bits,
            Player::O => self.o_bits,
        };
        let r = claims_any_line(bits);
        proof {
            if r {
                let l = choose|l: int| 0 <= l < 8 && #[trigger] bits_claim(bits, l);
                assert(claims_line(self@, p, l));
            }
            if has_won(self@, p) {
                let l = choose|l: int| 0 <= l < 8 && #[trigger] claims_line(self@, p, l);
                assert(bits_claim(bits, l));
            }
        }
        r
    }

    /// How many cells `player` holds.
    pub fn count_player(&self, player: Player) -> (r: u32)
        ensures
            r == count_of(self@, player, 9),
    {
        let mut count: u32 = 0;
        let mut i: u8 = 0;
        while i < 9
            invariant
                i <= 9,
                count == count_of(self@, player, i as int),
                count <= i,
            decreases 9 - i,
        {
            let cell = self.get_cell(&Position::new(i % 3, i / 3));
            let owned = match cell {
                Some(p) => p == player,
                None => false,
            };
            if owned {
                count = count + 1;
            }
            i = i + 1;
        }
        count
    }

    /// Whether all nine cells are taken.
    pub fn is_full(&self) -> (r: bool)
        ensures
            r == is_full_board(self@),
    {
        proof {
            lemma_cells_add_up(self@, 9);
        }
        self.count_player(Player::X) + self.count_player(Player::O) == 9
    }

    /// The empty cells, in row-major order.
    pub fn valid_moves(&self) -> (r: Vec<Position>)
        ensures
            r@ == empty_cells(self@, 9),
    {
        let mut moves: Vec<Position> = Vec::new();
        let mut i: u8 = 0;
        while i < 9
            invariant
                i <= 9,
                moves@ == empty_cells(self@, i as int),
            decreases 9 - i,
        {
            let pos = Position::new(i % 3, i / 3);
            if self.get_cell(&pos).is_none() {
                moves.push(pos);
            }
            i = i + 1;
        }
        moves
    }

    /// The player whose marks are exactly one of the eight winning lines.
    pub fn winner(&self) -> (r: Option<Player>)
        requires
            !(has_won(self@, Player::X) && has_won(self@, Player::O)),
        ensures
            r == winner_of(self@),
    {
        if self.player_won(Player::X) {
            Some(Player::X)
        } else if self.player_won(Player::O) {
            Some(Player::O)
        } else {
            None
        }
    }
}

} // verus!
