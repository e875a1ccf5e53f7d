use vstd::prelude::*;

verus! {

/// Scale factors are given in thousandths.
pub const PER_MILLE: i64 = 1000;

/// A size multiplier that follows the screen width: `total_scale` is
/// `scale` times `screen_width / screen_scale_factor`, all in thousandths.
#[derive(Clone, Copy, Debug, PartialEq, Eq, Structural)]
pub struct Scale {
    pub scale: i64,
    pub screen_scale_factor: i64,
    pub screen_scale: i64,
    pub total_scale: i64,
}

pub open spec fn screen_scale_of(screen_width: int, factor: int) -> int {
    screen_width * (PER_MILLE as int) / factor
}

pub open spec fn total_scale_of(scale: int, screen_scale: int) -> int {
    scale * screen_scale / (PER_MILLE as int)
}

impl Scale {
    /// Factors within the bounds that keep the arithmetic in range.
    pub open spec fn wf(self) -> bool {
        &&& 0 <= self.scale <= 1_000_000
        &&& 0 < self.screen_scale_factor
        &&& 0 <= self.screen_scale <= 1_099_511_627_776_000
        &&& 0 <= self.total_scale
    }

    pub fn new(scale: i64, screen_scale_factor: i64, screen_width: i64) -> (r: Scale)
        requires
            0 <= scale <= 1_000_000,
            0 < screen_scale_factor,
            0 <= screen_width <= 1_099_511_627_776,
        ensures
            r.wf(),
            r.scale == scale,
            r.screen_scale_factor == screen_scale_factor,
            r.screen_scale == screen_scale_of(screen_width as int, screen_scale_factor as int),
            r.total_scale == total_scale_of(scale as int, r.screen_scale as int),
    {
        let mut r = Scale { scale, screen_scale_factor, screen_scale: 0, total_scale: 0 };
        r.update(screen_width);
        r
    }

    /// Recomputes the factors for a new screen width.
    pub fn update(&mut self, screen_width: i64)
        requires
            0 <= old(self).scale <= 1_000_000,
            0 < old(self).screen_scale_factor,
            0 <= screen_width <= 1_099_511_627_776,
        ensures
            final(self).wf(),
            final(self).scale == old(self).scale,
            final(self).screen_scale_factor == old(self).screen_scale_factor,
            final(self).screen_scale == screen_scale_of(
                screen_width as int,
                old(self).screen_scale_factor as int,
            ),
            final(self).total_scale == total_scale_of(
                old(self).scale as int,
                final(self).screen_scale as int,
            ),
    {
        let ss = screen_width * PER_MILLE / self.screen_scale_factor;
        assert(ss <= (screen_width as int) * 1000) by (nonlinear_arith)
            requires
                ss == (screen_width as int) * 1000 / (self.screen_scale_factor as int),
                self.screen_scale_factor >= 1,
                screen_width >= 0,
        ;
        assert(0 <= (self.scale as int) * (ss as int) <= 1_000_000 * 1_099_511_627_776_000)
            by (nonlinear_arith)
            requires
                0 <= self.scale <= 1_000_000,
                0 <= ss <= 1_099_511_627_776_000,
        ;
        let total = (self.scale as i128) * (ss as i128) / (PER_MILLE as i128);
        assert(total <= 1_099_511_627_776_000_000) by (nonlinear_arith)
            requires
                total == (self.scale as int) * (ss as int) / 1000,
                0 <= (self.scale as int) * (ss as int) <= 1_000_000 * 1_099_511_627_776_000,
        ;
        self.screen_scale = ss;
        self.total_scale = total as i64;
    }
}

} // verus!
