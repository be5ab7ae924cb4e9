//! The symbol ramp and the grid of symbols that an intensity buffer maps to.

use vstd::prelude::*;
use crate::error::ConfigError;

verus! {

/// Index into a ramp of `n` symbols for an intensity:
/// `floor(intensity * (n - 1) / 255)`.
pub open spec fn ramp_index(intensity: u8, n: nat) -> int {
    intensity * (n - 1) / 255
}

/// The index stays inside the ramp; intensity 0 selects the first symbol and
/// intensity 255 the last.
pub proof fn lemma_ramp_index_bounds(intensity: u8, n: nat)
    requires
        n >= 1,
    ensures
        0 <= ramp_index(intensity, n) <= n - 1,
        ramp_index(0, n) == 0,
        ramp_index(255, n) == n - 1,
{
    let m = n - 1;
    assert(0 <= intensity * m <= 255 * m) by (nonlinear_arith)
        requires
            0 <= intensity <= 255,
            0 <= m,
    ;
}

/// A brighter intensity never selects an earlier symbol.
pub proof fn lemma_ramp_index_monotonic(a: u8, b: u8, n: nat)
    requires
        a <= b,
        n >= 1,
    ensures
        ramp_index(a, n) <= ramp_index(b, n),
{
    let m = n - 1;
    assert(a * m <= b * m) by (nonlinear_arith)
        requires
            0 <= a <= b,
            0 <= m,
    ;
}

/// Whether a sequence of symbols can serve as a ramp: at least two symbols,
/// none of them twice.
pub open spec fn valid_ramp(symbols: Seq<char>) -> bool {
    symbols.len() >= 2 && symbols.no_duplicates()
}

/// An ordered ramp of symbols, from the one for the darkest intensity to the
/// one for the brightest.
pub struct SymbolRamp {
    symbols: Vec<char>,
}

impl View for SymbolRamp {
    type V = Seq<char>;

    closed spec fn view(&self) -> Seq<char> {
        self.symbols@
    }
}

/// Whether some symbol occurs twice.
fn has_repeat(symbols: &Vec<char>) -> (found: bool)
    ensures
        found == !symbols@.no_duplicates(),
{
    let n = symbols.len();
    let mut j: usize = 0;
    while j < n
        invariant
            j <= n,
            n == symbols@.len(),
            forall|a: int, b: int| 0 <= a < b < j ==> symbols@[a] != symbols@[b],
        decreases n - j,
    {
        let mut i: usize = 0;
        while i < j
            invariant
                i <= j,
                j < n,
                n == symbols@.len(),
                forall|a: int| 0 <= a < i ==> symbols@[a] != symbols@[j as int],
            decreases j - i,
        {
            if symbols[i] == symbols[j] {
                return true;
            }
            i += 1;
        }
        j += 1;
    }
    false
}

impl SymbolRamp {
    pub open spec fn wf(&self) -> bool {
        valid_ramp(self@)
    }

    /// A ramp over the given symbols, first to last.
    pub fn new(symbols: Vec<char>) -> (out: Result<SymbolRamp, ConfigError>)
        ensures
            out is Ok <==> valid_ramp(symbols@),
            out matches Ok(ramp) ==> ramp.wf() && ramp@ == symbols@,
            out matches Err(e) ==> e == if symbols@.len() < 2 {
                ConfigError::RampTooShort
            } else {
                ConfigError::RampRepeatsSymbol
            },
    {
        if symbols.len() < 2 {
            return Err(ConfigError::RampTooShort);
        }
        if has_repeat(&symbols) {
            return Err(ConfigError::RampRepeatsSymbol);
        }
        Ok(SymbolRamp { symbols })
    }

    /// The seventeen-symbol ramp from blank to `N`.
    pub open spec fn standard_symbols() -> Seq<char> {
        seq![
            ' ', '.', '\'', ',', ':', ';', 'c', 'l', 'x', 'o', 'k', 'X', 'd', 'O', '0', 'K', 'N',
        ]
    }

    /// The ramp of `standard_symbols`.
    pub fn standard() -> (ramp: SymbolRamp)
        ensures
            ramp.wf(),
            ramp@ == SymbolRamp::standard_symbols(),
    {
        let symbols: Vec<char> = vec![
            ' ', '.', '\'', ',', ':', ';', 'c', 'l', 'x', 'o', 'k', 'X', 'd', 'O', '0', 'K', 'N',
        ];
        assert(symbols@ =~= SymbolRamp::standard_symbols());
        SymbolRamp { symbols }
    }

    /// Number of symbols.
    pub fn len(&self) -> (n: usize)
        ensures
            n == self@.len(),
    {
        self.symbols.len()
    }

    /// The symbols, first to last.
    pub fn as_slice(&self) -> (symbols: &[char])
        ensures
            symbols@ == self@,
    {
        self.symbols.as_slice()
    }

    /// The symbol at position `i`, or `None` past the end.
    pub fn symbol(&self, i: usize) -> (c: Option<char>)
        ensures
            c == if i < self@.len() {
                Some(self@[i as int])
            } else {
                None
            },
    {
        if i < self.symbols.len() {
            Some(self.symbols[i])
        } else {
            None
        }
    }

    /// Position in the ramp of the symbol for `intensity`.
    pub fn index_for(&self, intensity: u8) -> (i: usize)
        requires
            self.wf(),
        ensures
            i == ramp_index(intensity, self@.len()),
            i < self@.len(),
    {
        let n = self.symbols.len();
        proof {
            lemma_ramp_index_bounds(intensity, n as nat);
        }
        let scaled: u128 = (intensity as u128) * ((n - 1) as u128);
        (scaled / 255) as usize
    }

    /// The symbol for `intensity`.
    pub fn symbol_for(&self, intensity: u8) -> (c: char)
        requires
            self.wf(),
        ensures
            c == self@[ramp_index(intensity, self@.len())],
    {
        let i = self.index_for(intensity);
        self.symbols[i]
    }
}

/// The symbol of the standard ramp for `intensity`.
pub fn convert_pixel_to_ascii(intensity: u8) -> (c: char)
    ensures
        c == SymbolRamp::standard_symbols()[ramp_index(intensity, 17)],
{
    let ramp = SymbolRamp::standard();
    assert(SymbolRamp::standard_symbols().len() == 17);
    ramp.symbol_for(intensity)
}

} // verus!
